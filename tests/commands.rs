use ccg::commands::{DiffArgs, ListArgs, RestoreArgs, ShowArgs};
use ccg::diff_types::{ChangeKind, DiffEntry};
use ccg::error::CheckpointError;
use ccg::lifecycle::FileDelta;
use ccg::stats::{calculate_diff_stats, DiffStats, FileChangeInfo};

#[test]
fn arguments_are_checked() {
    assert!(matches!(ListArgs { number: 0 }.validate(), Err(CheckpointError::InvalidArgument(_))));
    assert!(ListArgs { number: 3 }.validate().is_ok());
    assert!(matches!(RestoreArgs { hash: String::new() }.validate(), Err(CheckpointError::InvalidArgument(_))));
    assert!(RestoreArgs { hash: "ab".to_string() }.validate().is_ok());
    assert!(ShowArgs { hash: String::new(), diff: true }.validate().is_err());
    assert!(ShowArgs { hash: "ab".to_string(), diff: false }.validate().is_ok());
    assert!(DiffArgs { hash_a: String::new(), hash_b: None }.validate().is_err());
    assert!(DiffArgs { hash_a: "ab".to_string(), hash_b: Some("cd".to_string()) }.validate().is_ok());
}

#[test]
fn stats_start_at_zero() {
    let s = DiffStats::new();
    assert_eq!(s, DiffStats { total_files: 0, additions: 0, deletions: 0, modifications: 0 });
    assert_eq!(DiffStats::default(), s);
    let f = FileChangeInfo::new("a".to_string(), ChangeKind::Added);
    assert_eq!((f.additions, f.deletions), (0, 0));
    let g = FileChangeInfo::with_stats("b".to_string(), ChangeKind::Modified, 3, 4);
    assert_eq!((g.path.as_str(), g.additions, g.deletions), ("b", 3, 4));
}

#[test]
fn stats_count_files_and_lines() {
    let deltas = vec![
        FileDelta { path: Some("a".to_string()), status: ChangeKind::Modified },
        FileDelta { path: Some("b".to_string()), status: ChangeKind::Added },
        FileDelta { path: None, status: ChangeKind::Modified },
    ];
    let e = |o: char, c: &str| DiffEntry { origin: o, content: c.to_string(), path: None, status: ChangeKind::Modified, hunk: None };
    let entries = vec![e('+', "x\n"), e('+', "y\n"), e('-', "z"), e('<', "\n\\ No newline at end of file\n"), e(' ', "k\n")];
    let s = calculate_diff_stats(&deltas, &entries);
    assert_eq!(s, DiffStats { total_files: 2, additions: 2, deletions: 1, modifications: 1 });
}
