//! The skip filter: a set of regular expressions matched against raw path bytes.
use regex::bytes::RegexSet;
use vstd::prelude::*;
use vstd::string::StrSliceExecFns;

verus! {

#[verifier::external_type_specification]
#[verifier::external_body]
pub struct ExRegexSet(RegexSet);

#[verifier::external_type_specification]
#[verifier::external_body]
pub struct ExRegexError(regex::Error);

/// The patterns a compiled set was built from, in the order given.
pub uninterp spec fn set_patterns(s: RegexSet) -> Seq<Seq<char>>;

/// Whether `RegexSet::new` accepts these patterns: each is a valid regular
/// expression and the compiled set stays within the size limits.
pub uninterp spec fn set_compiles(patterns: Seq<Seq<char>>) -> bool;

/// Whether the regular expression `pattern`, unanchored and with the crate's
/// default options, matches somewhere in `haystack`.
pub uninterp spec fn pattern_matches(pattern: Seq<char>, haystack: Seq<u8>) -> bool;

/// Whether at least one of `patterns` matches somewhere in `haystack`.
pub open spec fn matches_any(patterns: Seq<Seq<char>>, haystack: Seq<u8>) -> bool {
    exists|i: int| 0 <= i < patterns.len() && #[trigger] pattern_matches(patterns[i], haystack)
}

/// Relies on RegexSet::empty: a set of no patterns.
pub assume_specification[ RegexSet::empty ]() -> (r: RegexSet)
    ensures
        set_patterns(r).len() == 0,
;

/// Relies on RegexSet::is_match: true if and only if one of the set's
/// patterns matches the haystack.
pub assume_specification[ RegexSet::is_match ](s: &RegexSet, haystack: &[u8]) -> (r: bool)
    ensures
        r == (exists|i: int| 0 <= i < set_patterns(*s).len() && #[trigger] pattern_matches(set_patterns(*s)[i], haystack@)),
;

/// Relies on RegexSet::new: it succeeds exactly on the pattern lists it
/// accepts, and then holds the patterns as given, in order.
#[verifier::external_body]
fn compile_set(patterns: &Vec<String>) -> (r: Result<RegexSet, regex::Error>)
    ensures
        r is Ok <==> set_compiles(patterns@.map_values(|p: String| p@)),
        r matches Ok(s) ==> set_patterns(s) == patterns@.map_values(|p: String| p@),
{
    RegexSet::new(patterns)
}

/// Relies on the `Display` impl of regex::Error, for a message.
#[verifier::external_body]
fn error_message(e: &regex::Error) -> String {
    e.to_string()
}

/// Index of the first line feed in `s` at or after `from`, or the length of
/// `s` where there is none.
pub open spec fn next_newline(s: Seq<char>, from: int) -> int
    decreases s.len() - from,
{
    if from < 0 || from >= s.len() || s[from] == '\n' {
        from
    } else {
        next_newline(s, from + 1)
    }
}

/// `line` without one trailing carriage return.
pub open spec fn strip_cr(line: Seq<char>) -> Seq<char> {
    if line.len() > 0 && line.last() == '\r' {
        line.drop_last()
    } else {
        line
    }
}

/// The lines of `s` from index `from` on. A line ends at a line feed, which
/// is dropped together with a carriage return just before it; text after
/// the last line feed is a last line, and nothing after it is no line.
pub open spec fn lines_from(s: Seq<char>, from: int) -> Seq<Seq<char>>
    decreases s.len() - from
    via lines_from_decreases
{
    if from < 0 || from >= s.len() {
        Seq::empty()
    } else {
        let e = next_newline(s, from);
        if e < s.len() {
            seq![strip_cr(s.subrange(from, e))] + lines_from(s, e + 1)
        } else {
            seq![s.subrange(from, e)]
        }
    }
}

proof fn lemma_next_newline_bounds(s: Seq<char>, from: int)
    requires
        0 <= from <= s.len(),
    ensures
        from <= next_newline(s, from) <= s.len(),
    decreases s.len() - from,
{
    if from < s.len() && s[from] != '\n' {
        lemma_next_newline_bounds(s, from + 1);
    }
}

#[via_fn]
proof fn lines_from_decreases(s: Seq<char>, from: int) {
    if 0 <= from < s.len() {
        lemma_next_newline_bounds(s, from);
    }
}

/// The lines of `s`.
pub open spec fn lines_of(s: Seq<char>) -> Seq<Seq<char>> {
    lines_from(s, 0)
}

proof fn lemma_next_newline(s: Seq<char>, from: int, to: int)
    requires
        0 <= from <= to <= s.len(),
        forall|k: int| from <= k < to ==> s[k] != '\n',
        to == s.len() || s[to] == '\n',
    ensures
        next_newline(s, from) == to,
    decreases to - from,
{
    if from < to {
        lemma_next_newline(s, from + 1, to);
    }
}

/// Splits a skip list into its patterns, one per line.
pub fn pattern_lines(text: &str) -> (r: Vec<String>)
    ensures
        r@.map_values(|l: String| l@) == lines_of(text@),
{
    let n = text.unicode_len();
    let mut out: Vec<String> = Vec::new();
    let mut start: usize = 0;
    let mut i: usize = 0;
    while i < n
        invariant
            n == text@.len(),
            start <= i <= n,
            forall|k: int| start <= k < i ==> text@[k] != '\n',
            lines_of(text@) == out@.map_values(|l: String| l@) + lines_from(text@, start as int),
        decreases n - i,
    {
        if text.get_char(i) == '\n' {
            proof {
                lemma_next_newline(text@, start as int, i as int);
            }
            let mut end: usize = i;
            if end > start && text.get_char(end - 1) == '\r' {
                end = end - 1;
            }
            let line = text.substring_char(start, end).to_owned();
            assert(line@ == strip_cr(text@.subrange(start as int, i as int)));
            let ghost before = out@.map_values(|l: String| l@);
            out.push(line);
            assert(out@.map_values(|l: String| l@) =~= before.push(line@));
            assert(lines_from(text@, start as int) == seq![line@] + lines_from(text@, i + 1));
            assert(before + lines_from(text@, start as int) =~= out@.map_values(|l: String| l@) + lines_from(text@, i + 1));
            start = i + 1;
        }
        i = i + 1;
    }
    if start < n {
        proof {
            lemma_next_newline(text@, start as int, n as int);
        }
        let line = text.substring_char(start, n).to_owned();
        let ghost before = out@.map_values(|l: String| l@);
        out.push(line);
        assert(out@.map_values(|l: String| l@) =~= before.push(line@));
        assert(lines_from(text@, start as int) == seq![line@]);
    }
    assert(out@.map_values(|l: String| l@) =~= lines_of(text@));
    out
}

/// Why a skip filter could not be built.
pub enum FilterError {
    /// A pattern is not a valid regular expression (or the set is too large);
    /// the message is the regex compiler's.
    InvalidPattern { message: String },
}

/// Paths that must be left out of the mirror.
pub struct SkipFilter {
    set: RegexSet,
}

impl SkipFilter {
    /// The patterns, in the order they were given.
    pub closed spec fn patterns(&self) -> Seq<Seq<char>> {
        set_patterns(self.set)
    }

    /// A filter that skips nothing.
    pub fn none() -> (r: SkipFilter)
        ensures
            r.patterns() == Seq::<Seq<char>>::empty(),
    {
        SkipFilter { set: RegexSet::empty() }
    }

    /// Compiles `patterns`. An empty list always succeeds.
    pub fn new(patterns: &Vec<String>) -> (r: Result<SkipFilter, FilterError>)
        ensures
            patterns@.len() == 0 ==> r is Ok,
            patterns@.len() > 0 ==> (r is Ok <==> set_compiles(patterns@.map_values(|p: String| p@))),
            r matches Ok(f) ==> f.patterns() == patterns@.map_values(|p: String| p@),
    {
        if patterns.len() == 0 {
            let f = SkipFilter::none();
            assert(f.patterns() =~= patterns@.map_values(|p: String| p@));
            return Ok(f);
        }
        match compile_set(patterns) {
            Ok(set) => Ok(SkipFilter { set }),
            Err(e) => Err(FilterError::InvalidPattern { message: error_message(&e) }),
        }
    }

    /// Compiles the patterns of a skip list, one per line.
    pub fn from_text(text: &str) -> (r: Result<SkipFilter, FilterError>)
        ensures
            lines_of(text@).len() == 0 ==> r is Ok,
            lines_of(text@).len() > 0 ==> (r is Ok <==> set_compiles(lines_of(text@))),
            r matches Ok(f) ==> f.patterns() == lines_of(text@),
    {
        let lines = pattern_lines(text);
        SkipFilter::new(&lines)
    }

    /// Whether the path, given as its raw bytes, is to be skipped: true exactly
    /// when one of the patterns matches somewhere in it.
    pub fn is_skipped(&self, path: &[u8]) -> (r: bool)
        ensures
            r == matches_any(self.patterns(), path@),
    {
        self.set.is_match(path)
    }
}

} // verus!
