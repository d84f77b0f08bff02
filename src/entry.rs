//! What to do with one entry of the source tree: where it goes in the
//! destination tree, and whether it is mirrored as a directory, copied or stubbed.
use crate::filter::{matches_any, SkipFilter};
use crate::stub::{stub_content, stub_spec};
use std::path::Path;
use vstd::prelude::*;
use vstd::slice::slice_subrange;
use vstd::string::StringExecFns;
use vstd::utf8::encode_utf8;

verus! {

/// The path of `path` relative to `base`, as pathdiff computes it.
pub uninterp spec fn path_diff(path: Seq<char>, base: Seq<char>) -> Option<Seq<char>>;

/// `base` joined with `rel`, as `Path::join` does it.
pub uninterp spec fn path_join(base: Seq<char>, rel: Seq<char>) -> Seq<char>;

/// The last component of `path`, as `Path::file_name` gives it.
pub uninterp spec fn path_file_name(path: Seq<char>) -> Option<Seq<char>>;

/// `path` with its last component replaced by `name`, as `Path::with_file_name` does it.
pub uninterp spec fn path_with_file_name(path: Seq<char>, name: Seq<char>) -> Seq<char>;

/// Relies on pathdiff::diff_paths: the path of `path` relative to `base`, or
/// none where it cannot be expressed so. The inputs are text, so the
/// components it returns are text too.
#[verifier::external_body]
fn relative_path(path: &str, base: &str) -> (r: Option<String>)
    ensures
        r matches Some(d) ==> path_diff(path@, base@) == Some(d@),
        r is None ==> path_diff(path@, base@) is None,
{
    pathdiff::diff_paths(path, base).map(|p| p.to_string_lossy().into_owned())
}

/// Relies on std's Path::join: the destination root extended by a relative
/// path. Both inputs are text, so the lossy conversion back loses nothing.
#[verifier::external_body]
fn join_path(base: &str, rel: &str) -> (r: String)
    ensures
        r@ == path_join(base@, rel@),
{
    Path::new(base).join(rel).to_string_lossy().into_owned()
}

/// Relies on std's Path::file_name: the name of a file to stub, or none where
/// the path ends in `..` or is a root.
#[verifier::external_body]
fn file_name(path: &str) -> (r: Option<String>)
    ensures
        r matches Some(n) ==> path_file_name(path@) == Some(n@),
        r is None ==> path_file_name(path@) is None,
{
    Path::new(path).file_name().map(|n| n.to_string_lossy().into_owned())
}

/// Relies on std's Path::with_file_name: the stub's path, beside the file it
/// stands for.
#[verifier::external_body]
fn with_file_name(path: &str, name: &str) -> (r: String)
    ensures
        r@ == path_with_file_name(path@, name@),
{
    Path::new(path).with_file_name(name).to_string_lossy().into_owned()
}

/// The settings of one run; read-only while the tree is processed.
pub struct Config {
    pub source_root: String,
    pub destination_root: String,
    /// Files of at most this many bytes are copied; larger ones are stubbed.
    pub max_inline_size: u64,
    /// Appended to the name of a stubbed file.
    pub stub_extension: String,
    /// The first line of every stub.
    pub magic: String,
    pub skip: SkipFilter,
}

/// Whether some directory of the source tree above the entry at `path` (the
/// entry's raw bytes, `root_len` the length of the source root's bytes)
/// matches one of `patterns`: a prefix of `path` longer than the root that
/// ends just before a `/` (byte 47).
pub open spec fn under_skipped_dir(patterns: Seq<Seq<char>>, root_len: int, path: Seq<u8>) -> bool {
    exists|k: int| root_len < k < path.len() && path[k] == 47 && #[trigger] matches_any(patterns, path.subrange(0, k))
}

/// How the walk treats one entry before looking at it further.
#[derive(PartialEq, Eq, Structural, Debug, Clone, Copy)]
pub enum Admission {
    /// Mirror it.
    Process,
    /// It matches a skip pattern: leave it out.
    Skip,
    /// It does not match, but a directory above it in the source tree does:
    /// placing it would make that directory appear, so it cannot be mirrored.
    UnderSkipped,
}

/// How the walk treats the entry at `path` under `patterns`, the source
/// root being `root_len` bytes long.
pub open spec fn admission_of(patterns: Seq<Seq<char>>, root_len: int, path: Seq<u8>) -> Admission {
    if matches_any(patterns, path) {
        Admission::Skip
    } else if under_skipped_dir(patterns, root_len, path) {
        Admission::UnderSkipped
    } else {
        Admission::Process
    }
}

/// A path that matches a skip pattern is never mirrored, and neither is
/// anything below a directory of the source tree that matches one: only an
/// entry that neither matches nor lies under a match is processed, so no
/// skipped path appears in the destination, not even as a directory made
/// to hold a child.
pub proof fn lemma_skipped_never_mirrored(patterns: Seq<Seq<char>>, root_len: int, path: Seq<u8>)
    ensures
        matches_any(patterns, path) ==> admission_of(patterns, root_len, path) == Admission::Skip,
        admission_of(patterns, root_len, path) == Admission::Process ==> {
            &&& !matches_any(patterns, path)
            &&& forall|k: int| root_len < k < path.len() && path[k] == 47 ==> !#[trigger] matches_any(patterns, path.subrange(0, k))
        },
{
}

impl Config {
    /// Whether the entry at `path` (its raw bytes) is left out of the mirror.
    pub fn skips(&self, path: &[u8]) -> (r: bool)
        ensures
            r == matches_any(self.skip.patterns(), path@),
    {
        self.skip.is_skipped(path)
    }

    /// Whether a directory of the source tree above the entry at `path` is skipped.
    pub fn has_skipped_ancestor(&self, path: &[u8]) -> (r: bool)
        ensures
            r == under_skipped_dir(self.skip.patterns(), encode_utf8(self.source_root@).len() as int, path@),
    {
        let root_len = self.source_root.as_str().as_bytes().len();
        let ghost pats = self.skip.patterns();
        let mut k: usize = root_len;
        while k < path.len()
            invariant
                root_len == encode_utf8(self.source_root@).len(),
                pats == self.skip.patterns(),
                root_len <= k,
                k <= path@.len() || k == root_len,
                forall|j: int| root_len < j < k && path@[j] == 47 ==> !#[trigger] matches_any(pats, path@.subrange(0, j)),
            decreases path@.len() - k,
        {
            if k > root_len && path[k] == 47 {
                let prefix = slice_subrange(path, 0, k);
                if self.skip.is_skipped(prefix) {
                    assert(matches_any(pats, path@.subrange(0, k as int)));
                    return true;
                }
            }
            k = k + 1;
        }
        false
    }

    /// Decides how the walk treats the entry at `path`: skipped where it
    /// matches a pattern; else kept out where a directory above it in the
    /// source tree matches; else mirrored.
    pub fn admission(&self, path: &[u8]) -> (r: Admission)
        ensures
            r == admission_of(self.skip.patterns(), encode_utf8(self.source_root@).len() as int, path@),
    {
        if self.skips(path) {
            Admission::Skip
        } else if self.has_skipped_ancestor(path) {
            Admission::UnderSkipped
        } else {
            Admission::Process
        }
    }
}

/// What to do in the destination tree for one entry.
pub enum EntryAction {
    /// Create this directory, with any missing ancestors.
    CreateDir { dest: String },
    /// Copy the source file's bytes to this path.
    Copy { dest: String },
    /// Write these bytes to this path in place of the file.
    WriteStub { dest: String, content: Vec<u8> },
}

/// Why an entry cannot be mirrored.
#[derive(PartialEq, Eq, Structural, Debug, Clone, Copy)]
pub enum EntryError {
    /// The entry's path cannot be expressed relative to the source root.
    PathDiff,
    /// The destination of a file to stub has no file name to extend.
    NoFileName,
}

/// Where the entry at `entry` lands in the destination tree, if its path can
/// be taken relative to the source root.
pub open spec fn destination_of(source_root: Seq<char>, destination_root: Seq<char>, entry: Seq<char>) -> Option<Seq<char>> {
    match path_diff(entry, source_root) {
        Some(d) => Some(path_join(destination_root, d)),
        None => None,
    }
}

/// Computes the destination path for the entry at `entry`: the destination
/// root joined with the entry's path relative to the source root.
pub fn relativize(source_root: &str, destination_root: &str, entry: &str) -> (r: Result<String, EntryError>)
    ensures
        destination_of(source_root@, destination_root@, entry@) is None <==> r is Err,
        r matches Ok(d) ==> destination_of(source_root@, destination_root@, entry@) == Some(d@),
        r matches Err(e) ==> e == EntryError::PathDiff,
{
    match relative_path(entry, source_root) {
        None => Err(EntryError::PathDiff),
        Some(diff) => Ok(join_path(destination_root, diff.as_str())),
    }
}

/// Decides what to do with the entry at `entry`, a directory or a file of
/// `len` bytes. Directories are mirrored; files of at most `max_inline_size`
/// bytes are copied under their own name; larger files are replaced by a stub
/// named with the stub extension appended.
pub fn plan_entry(cfg: &Config, entry: &str, is_dir: bool, len: u64) -> (r: Result<EntryAction, EntryError>)
    ensures
        destination_of(cfg.source_root@, cfg.destination_root@, entry@) is None ==> r == Err::<EntryAction, EntryError>(EntryError::PathDiff),
        destination_of(cfg.source_root@, cfg.destination_root@, entry@) matches Some(dest) ==> {
            &&& is_dir ==> (r matches Ok(EntryAction::CreateDir { dest: p }) && p@ == dest)
            &&& (!is_dir && len <= cfg.max_inline_size) ==> (r matches Ok(EntryAction::Copy { dest: p }) && p@ == dest)
            &&& (!is_dir && len > cfg.max_inline_size) ==> match path_file_name(dest) {
                None => r == Err::<EntryAction, EntryError>(EntryError::NoFileName),
                Some(name) => r matches Ok(EntryAction::WriteStub { dest: p, content: c })
                    && p@ == path_with_file_name(dest, name + cfg.stub_extension@)
                    && c@ == stub_spec(encode_utf8(cfg.magic@), len as nat),
            }
        },
{
    let dest = match relativize(cfg.source_root.as_str(), cfg.destination_root.as_str(), entry) {
        Ok(d) => d,
        Err(e) => return Err(e),
    };
    if is_dir {
        return Ok(EntryAction::CreateDir { dest });
    }
    if len <= cfg.max_inline_size {
        return Ok(EntryAction::Copy { dest });
    }
    match file_name(dest.as_str()) {
        None => Err(EntryError::NoFileName),
        Some(mut name) => {
            name.append(cfg.stub_extension.as_str());
            let stub_path = with_file_name(dest.as_str(), name.as_str());
            Ok(EntryAction::WriteStub { dest: stub_path, content: stub_content(cfg.magic.as_str(), len) })
        },
    }
}

} // verus!
