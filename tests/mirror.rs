use drivetan::entry::{plan_entry, relativize, Admission, Config, EntryAction, EntryError};
use drivetan::filter::{pattern_lines, FilterError, SkipFilter};
use drivetan::run::{check_args, Outcome, RunError, StartError, StartStep, Tally};
use drivetan::stub::{human_size, stub_content};

fn text(bytes: Vec<u8>) -> String {
    String::from_utf8(bytes).unwrap()
}

fn config(max_inline_size: u64, patterns: &[&str]) -> Config {
    let pats: Vec<String> = patterns.iter().map(|p| p.to_string()).collect();
    let skip = match SkipFilter::new(&pats) {
        Ok(f) => f,
        Err(_) => panic!("patterns should compile"),
    };
    Config {
        source_root: "/media/drive".to_string(),
        destination_root: "/home/me/drive".to_string(),
        max_inline_size,
        stub_extension: ".drivetan.txt".to_string(),
        magic: "DRIVETAN".to_string(),
        skip,
    }
}

#[test]
fn human_size_bytes() {
    assert_eq!(text(human_size(0)), "0 B");
    assert_eq!(text(human_size(10)), "10 B");
    assert_eq!(text(human_size(1023)), "1023 B");
}

#[test]
fn human_size_units() {
    assert_eq!(text(human_size(1024)), "1.00 KiB");
    assert_eq!(text(human_size(5000)), "4.88 KiB");
    assert_eq!(text(human_size(1048575)), "1024.00 KiB");
    assert_eq!(text(human_size(1048576)), "1.00 MiB");
    assert_eq!(text(human_size(2097152)), "2.00 MiB");
    assert_eq!(text(human_size(1073741823)), "1024.00 MiB");
    assert_eq!(text(human_size(1073741824)), "1.00 GiB");
    assert_eq!(text(human_size(5368709120)), "5.00 GiB");
    assert_eq!(text(human_size(u64::MAX)), "17179869184.00 GiB");
}

#[test]
fn human_size_rounds_ties_to_even() {
    // 1152 / 1024 = 1.125 exactly; 1408 / 1024 = 1.375 exactly
    assert_eq!(text(human_size(1152)), "1.12 KiB");
    assert_eq!(text(human_size(1408)), "1.38 KiB");
    // 1034 / 1024 = 1.0097..., rounds up
    assert_eq!(text(human_size(1034)), "1.01 KiB");
}

#[test]
fn stub_content_exact() {
    assert_eq!(
        text(stub_content("DRIVETAN", 2097152)),
        "DRIVETAN\n\nsize:       2097152\nhuman_size: 2.00 MiB\n"
    );
    assert_eq!(text(stub_content("", 7)), "\n\nsize:       7\nhuman_size: 7 B\n");
}

#[test]
fn relativize_joins_relative_part() {
    assert_eq!(
        relativize("/media/drive", "/home/me/drive", "/media/drive/a/b.txt"),
        Ok("/home/me/drive/a/b.txt".to_string())
    );
    assert_eq!(relativize("/media/drive", "/out", "relative/path"), Err(EntryError::PathDiff));
}

#[test]
fn scenario_big_and_small_files() {
    let cfg = config(1024, &[]);
    match plan_entry(&cfg, "/media/drive/a", true, 4096) {
        Ok(EntryAction::CreateDir { dest }) => assert_eq!(dest, "/home/me/drive/a"),
        _ => panic!("expected a directory"),
    }
    match plan_entry(&cfg, "/media/drive/a/big.bin", false, 5000) {
        Ok(EntryAction::WriteStub { dest, content }) => {
            assert_eq!(dest, "/home/me/drive/a/big.bin.drivetan.txt");
            assert_eq!(text(content), "DRIVETAN\n\nsize:       5000\nhuman_size: 4.88 KiB\n");
        }
        _ => panic!("expected a stub"),
    }
    match plan_entry(&cfg, "/media/drive/a/small.txt", false, 10) {
        Ok(EntryAction::Copy { dest }) => assert_eq!(dest, "/home/me/drive/a/small.txt"),
        _ => panic!("expected a copy"),
    }
}

#[test]
fn threshold_is_inclusive() {
    let cfg = config(1024, &[]);
    assert!(matches!(plan_entry(&cfg, "/media/drive/x", false, 1024), Ok(EntryAction::Copy { .. })));
    assert!(matches!(plan_entry(&cfg, "/media/drive/x", false, 1025), Ok(EntryAction::WriteStub { .. })));
}

#[test]
fn default_threshold_stubs_every_nonempty_file() {
    let cfg = config(0, &[]);
    assert!(matches!(plan_entry(&cfg, "/media/drive/empty", false, 0), Ok(EntryAction::Copy { .. })));
    match plan_entry(&cfg, "/media/drive/one", false, 1) {
        Ok(EntryAction::WriteStub { dest, content }) => {
            assert_eq!(dest, "/home/me/drive/one.drivetan.txt");
            assert_eq!(text(content), "DRIVETAN\n\nsize:       1\nhuman_size: 1 B\n");
        }
        _ => panic!("expected a stub"),
    }
}

#[test]
fn entry_outside_source_fails() {
    let cfg = config(0, &[]);
    assert!(matches!(plan_entry(&cfg, "elsewhere/file", false, 3), Err(EntryError::PathDiff)));
}

#[test]
fn scenario_destination_not_empty() {
    assert_eq!(check_args(true, true, true), Err(StartError::DestinationNotEmpty));
    assert_eq!(check_args(true, true, false), Ok(StartStep::UseDestination));
    assert_eq!(check_args(true, false, false), Ok(StartStep::CreateDestination));
    assert_eq!(check_args(false, true, false), Err(StartError::SourceMissing));
}

#[test]
fn scenario_skip_git() {
    let cfg = config(0, &[r"\.git"]);
    assert!(cfg.skips(b"/media/drive/repo/.git/config"));
    assert!(cfg.skips(b"/media/drive/repo/.git"));
    assert!(!cfg.skips(b"/media/drive/repo/src/main.rs"));
    assert!(!cfg.skips(b"/media/drive/repo"));
}

#[test]
fn skip_matches_raw_bytes() {
    let cfg = config(0, &["^/media/drive/bad"]);
    assert!(cfg.skips(&[b'/', b'm', b'e', b'd', b'i', b'a', b'/', b'd', b'r', b'i', b'v', b'e', b'/', b'b', b'a', b'd', 0xff]));
    assert!(!cfg.skips(&[0xff, b'/', b'b', b'a', b'd']));
}

#[test]
fn empty_filter_skips_nothing() {
    let f = SkipFilter::none();
    assert!(!f.is_skipped(b"/anything/at/all"));
    assert!(!f.is_skipped(b""));
}

#[test]
fn invalid_pattern_is_rejected() {
    let pats = vec!["ok".to_string(), "(unclosed".to_string()];
    match SkipFilter::new(&pats) {
        Err(FilterError::InvalidPattern { message }) => assert!(!message.is_empty()),
        Ok(_) => panic!("pattern should not compile"),
    }
}

#[test]
fn scenario_all_entries_fail() {
    let mut t = Tally::new();
    t.record(Outcome::Error);
    t.record(Outcome::Error);
    t.record(Outcome::FilteredOut);
    assert_eq!(t.success, 0);
    assert_eq!(t.finish(), Err(RunError::NoSuccess { errors: 2 }));
}

#[test]
fn tally_counts_each_outcome() {
    let mut t = Tally::new();
    t.record(Outcome::Success);
    t.record(Outcome::Error);
    t.record(Outcome::FilteredOut);
    t.record(Outcome::FilteredOut);
    assert_eq!((t.success, t.errors, t.skipped, t.warnings), (1, 1, 2, 0));
    assert_eq!(t.finish(), Ok(()));
}

#[test]
fn pattern_lines_splits_like_text_lines() {
    let cases = ["", "a", "a\n", "a\nb", "a\r\nb\r\n", "\n\nx", "a\rb\n", "end\r", "\\.git\n^/tmp\n"];
    for c in cases {
        let expected: Vec<String> = c.lines().map(|l| l.to_string()).collect();
        assert_eq!(pattern_lines(c), expected, "input {:?}", c);
    }
    assert_eq!(pattern_lines("x\r\n\ny"), vec!["x".to_string(), String::new(), "y".to_string()]);
}

#[test]
fn filter_from_text() {
    let f = match SkipFilter::from_text("\\.git\r\n\\.cache\n") {
        Ok(f) => f,
        Err(_) => panic!("patterns should compile"),
    };
    assert!(f.is_skipped(b"/d/repo/.git/HEAD"));
    assert!(f.is_skipped(b"/d/home/.cache"));
    assert!(!f.is_skipped(b"/d/home/notes.txt"));
    assert!(matches!(SkipFilter::from_text(""), Ok(_)));
    assert!(matches!(SkipFilter::from_text("[z-a]\n"), Err(FilterError::InvalidPattern { .. })));
}

#[test]
fn partial_success_counts_as_success_with_warning() {
    let mut t = Tally::new();
    t.record(Outcome::PartialSuccess);
    t.record(Outcome::Error);
    assert_eq!((t.success, t.errors, t.skipped, t.warnings), (1, 1, 0, 1));
    assert_eq!(t.finish(), Ok(()));
}

#[test]
fn admission_of_entries() {
    let cfg = config(0, &[r"\.git", "^/media/drive/private$"]);
    assert_eq!(cfg.admission(b"/media/drive/repo/.git"), Admission::Skip);
    assert_eq!(cfg.admission(b"/media/drive/repo/.git/config"), Admission::Skip);
    assert_eq!(cfg.admission(b"/media/drive/repo/readme"), Admission::Process);
    assert_eq!(cfg.admission(b"/media/drive/private"), Admission::Skip);
    assert_eq!(cfg.admission(b"/media/drive/private/notes.txt"), Admission::UnderSkipped);
    assert_eq!(cfg.admission(b"/media/drive/private/a/b"), Admission::UnderSkipped);
    assert_eq!(cfg.admission(b"/media/drive/privateer"), Admission::Process);
    assert_eq!(cfg.admission(b"/media/drive"), Admission::Process);
}

#[test]
fn ancestors_above_the_source_root_do_not_count() {
    let cfg = config(0, &["^/media$"]);
    assert!(!cfg.has_skipped_ancestor(b"/media/drive/a.txt"));
    assert_eq!(cfg.admission(b"/media/drive/a.txt"), Admission::Process);
}

#[test]
fn filter_compiles_valid_patterns() {
    let pats = vec!["a+".to_string(), "^b$".to_string()];
    assert!(SkipFilter::new(&pats).is_ok());
    assert!(SkipFilter::new(&vec!["(".to_string()]).is_err());
}
