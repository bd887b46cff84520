use ccg::render::diff_summary_text;
use ccg::diff_types::{ChangeKind, DiffEntry, DiffSummary, HunkRange, ReportLine};
use ccg::render::render_diff;

fn entry(origin: char, content: &str) -> DiffEntry<String> {
    DiffEntry {
        origin,
        content: content.to_string(),
        path: Some("f.txt".to_string()),
        status: ChangeKind::Modified,
        hunk: None,
    }
}

fn header(path: &str, status: ChangeKind) -> DiffEntry<String> {
    DiffEntry {
        origin: 'F',
        content: format!("diff --git a/{p} b/{p}\nindex 1..2 100644\n--- a/{p}\n+++ b/{p}\n", p = path),
        path: Some(path.to_string()),
        status,
        hunk: None,
    }
}

fn hunk(old_start: u32, old_lines: u32, new_start: u32, new_lines: u32) -> DiffEntry<String> {
    DiffEntry {
        origin: 'H',
        content: format!("@@ -{},{} +{},{} @@\n", old_start, old_lines, new_start, new_lines),
        path: Some("f.txt".to_string()),
        status: ChangeKind::Modified,
        hunk: Some(HunkRange { old_start, old_lines, new_start, new_lines }),
    }
}

const MARKER: &str = "\n\\ No newline at end of file\n";

fn count(lines: &[ReportLine<String>]) -> (usize, usize) {
    let mut added = 0;
    let mut removed = 0;
    for l in lines {
        match l {
            ReportLine::Added { .. } => added += 1,
            ReportLine::Removed { .. } => removed += 1,
            _ => {}
        }
    }
    (added, removed)
}

#[test]
fn appended_line_after_missing_newline_is_context_and_addition() {
    let entries = vec![
        header("f.txt", ChangeKind::Modified),
        hunk(1, 2, 1, 3),
        entry(' ', "a\n"),
        entry('-', "last"),
        entry('<', MARKER),
        entry('+', "last\n"),
        entry('+', "new\n"),
    ];
    let r = render_diff(&vec!["f.txt".to_string()], &entries);
    let tail = &r.lines[r.lines.len() - 2..];
    match &tail[0] {
        ReportLine::Context { old_line, new_line, text } => {
            assert_eq!(*old_line, Some(2));
            assert_eq!(*new_line, Some(2));
            assert_eq!(text, "last");
        }
        other => panic!("unexpected {:?}", other),
    }
    match &tail[1] {
        ReportLine::Added { line, text } => {
            assert_eq!(*line, Some(3));
            assert_eq!(text, "new");
        }
        other => panic!("unexpected {:?}", other),
    }
    assert_eq!(count(&r.lines), (1, 0));
    assert_eq!(r.summary, Some(DiffSummary { files: 1, insertions: 1, deletions: 0 }));
}

#[test]
fn dropped_last_line_is_context_and_deletion() {
    let entries = vec![
        header("f.txt", ChangeKind::Modified),
        hunk(1, 2, 1, 1),
        entry('-', "x\n"),
        entry('-', "y"),
        entry('<', MARKER),
        entry('+', "x"),
        entry('>', MARKER),
    ];
    let r = render_diff(&vec!["f.txt".to_string()], &entries);
    let n = r.lines.len();
    assert!(matches!(&r.lines[n - 2], ReportLine::Context { text, .. } if text == "x"));
    assert!(matches!(&r.lines[n - 1], ReportLine::Removed { line: Some(2), text } if text == "y"));
    assert_eq!(r.summary, Some(DiffSummary { files: 1, insertions: 0, deletions: 1 }));
}

#[test]
fn other_newline_changes_render_literally_in_order() {
    let entries = vec![
        header("f.txt", ChangeKind::Modified),
        hunk(1, 1, 1, 1),
        entry('-', "old"),
        entry('<', MARKER),
        entry('+', "new\n"),
    ];
    let r = render_diff(&vec!["f.txt".to_string()], &entries);
    let n = r.lines.len();
    assert!(matches!(&r.lines[n - 2], ReportLine::Removed { line: Some(1), text } if text == "old"));
    assert!(matches!(&r.lines[n - 1], ReportLine::Added { line: Some(1), text } if text == "new\n"));
    assert_eq!(r.summary, Some(DiffSummary { files: 1, insertions: 1, deletions: 1 }));
}

#[test]
fn plain_hunk_gets_numbers_and_banner() {
    let entries = vec![
        header("f.txt", ChangeKind::Modified),
        hunk(10, 3, 10, 3),
        entry(' ', "a\n"),
        entry('-', "b\n"),
        entry('+', "B\n"),
        entry(' ', "c\n"),
    ];
    let r = render_diff(&vec!["f.txt".to_string()], &entries);
    assert!(matches!(r.lines[0], ReportLine::FileSeparator));
    assert!(matches!(&r.lines[1], ReportLine::FileHeader { kind: ChangeKind::Modified, path } if path == "f.txt"));
    assert!(matches!(r.lines[2], ReportLine::HunkRange { old_first: 10, old_last: 12, new_first: 10, new_last: 12 }));
    assert!(matches!(r.lines[3], ReportLine::Context { old_line: Some(10), new_line: Some(10), .. }));
    assert!(matches!(r.lines[4], ReportLine::Removed { line: Some(11), .. }));
    assert!(matches!(r.lines[5], ReportLine::Added { line: Some(11), .. }));
    assert!(matches!(r.lines[6], ReportLine::Context { old_line: Some(12), new_line: Some(12), .. }));
    assert_eq!(r.lines.len(), 7);
}

#[test]
fn empty_range_banner_keeps_its_start() {
    let entries = vec![header("n.txt", ChangeKind::Added), hunk(0, 0, 1, 2), entry('+', "x\n"), entry('+', "y\n")];
    let r = render_diff(&vec!["n.txt".to_string()], &entries);
    assert!(matches!(r.lines[2], ReportLine::HunkRange { old_first: 0, old_last: 0, new_first: 1, new_last: 2 }));
    assert_eq!(r.summary, Some(DiffSummary { files: 1, insertions: 2, deletions: 0 }));
}

#[test]
fn textual_hunk_header_is_parsed() {
    let mut h = entry('H', "@@ -7,2 +9 @@ fn main\n");
    h.hunk = None;
    let entries = vec![header("f.txt", ChangeKind::Modified), h, entry(' ', "a\n")];
    let r = render_diff(&vec!["f.txt".to_string()], &entries);
    assert!(matches!(r.lines[2], ReportLine::HunkStart { old_start: 7, new_start: 9 }));
    assert!(matches!(r.lines[3], ReportLine::Context { old_line: Some(7), new_line: Some(9), .. }));
}

#[test]
fn lines_before_any_hunk_have_no_numbers() {
    let entries = vec![header("f.txt", ChangeKind::Modified), entry('+', "x\n"), entry(' ', "y\n")];
    let r = render_diff(&vec!["f.txt".to_string()], &entries);
    assert!(matches!(r.lines[2], ReportLine::Added { line: None, .. }));
    assert!(matches!(r.lines[3], ReportLine::Context { old_line: None, new_line: None, .. }));
}

#[test]
fn files_are_separated_and_counted_once() {
    let entries = vec![
        header("a.txt", ChangeKind::Added),
        hunk(0, 0, 1, 1),
        entry('+', "a\n"),
        header("b.txt", ChangeKind::Deleted),
        hunk(1, 1, 0, 0),
        entry('-', "b\n"),
    ];
    let paths = vec!["a.txt".to_string(), "b.txt".to_string(), "a.txt".to_string()];
    let r = render_diff(&paths, &entries);
    assert!(r.lines.iter().any(|l| matches!(l, ReportLine::Blank)));
    assert_eq!(r.summary, Some(DiffSummary { files: 2, insertions: 1, deletions: 1 }));
}

#[test]
fn empty_diff_has_no_summary() {
    let r = render_diff(&Vec::new(), &Vec::new());
    assert!(r.lines.is_empty());
    assert_eq!(r.summary, None);
}

#[test]
fn summary_equals_rendered_line_counts() {
    let entries = vec![
        header("a.txt", ChangeKind::Modified),
        hunk(1, 3, 1, 4),
        entry(' ', "k\n"),
        entry('-', "d1\n"),
        entry('+', "a1\n"),
        entry('+', "a2\n"),
        entry(' ', "k2\n"),
        header("b.txt", ChangeKind::Modified),
        hunk(1, 1, 1, 2),
        entry('-', "z"),
        entry('<', MARKER),
        entry('+', "z\n"),
        entry('+', "w\n"),
    ];
    let paths = vec!["a.txt".to_string(), "b.txt".to_string()];
    let r = render_diff(&paths, &entries);
    let s = r.summary.unwrap();
    assert_eq!(count(&r.lines), (s.insertions, s.deletions));
    assert_eq!((s.files, s.insertions, s.deletions), (2, 3, 1));
}

#[test]
fn index_and_other_hunk_lines_are_trimmed() {
    let mut idx = entry('F', "index 123..456 100644\n");
    idx.path = None;
    let mut other = entry('H', "  something else \n");
    other.hunk = None;
    let r = render_diff(&Vec::new(), &vec![idx, other]);
    assert!(matches!(&r.lines[0], ReportLine::IndexInfo { text } if text == "index 123..456 100644"));
    assert!(matches!(&r.lines[1], ReportLine::HunkText { text } if text == "something else"));
}

#[test]
fn totals_line_names_only_nonzero_counts() {
    assert_eq!(diff_summary_text(&DiffSummary { files: 3, insertions: 12, deletions: 0 }), "3 files changed, 12 insertions(+)");
    assert_eq!(
        diff_summary_text(&DiffSummary { files: 1, insertions: 2, deletions: 5 }),
        "1 files changed, 2 insertions(+), 5 deletions(-)"
    );
    assert_eq!(diff_summary_text(&DiffSummary { files: 0, insertions: 0, deletions: 0 }), "0 files changed");
}
