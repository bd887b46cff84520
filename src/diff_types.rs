//! The plain values that a structural diff is handed over in, and the
//! structured report that the renderer makes of it.

use vstd::prelude::*;
use crate::text::opt_view;

verus! {

/// The kind of change of one file of a diff.
#[derive(Debug, Clone, Copy, PartialEq, Eq, Structural)]
pub enum ChangeKind {
    Added,
    Deleted,
    Modified,
    Renamed,
    Copied,
    /// Any other status the backend reports.
    Other,
}

/// The line ranges that a hunk declares.
#[derive(Debug, Clone, Copy, PartialEq, Eq, Structural)]
pub struct HunkRange {
    pub old_start: u32,
    pub old_lines: u32,
    pub new_start: u32,
    pub new_lines: u32,
}

/// One entry of a streamed diff: a file header (`'F'`), a hunk header
/// (`'H'`), an added (`'+'`), removed (`'-'`) or context (`' '`) line, or a
/// marker, with the file it belongs to.
#[derive(Debug, Clone)]
pub struct DiffEntry<T> {
    /// The backend's classification of the entry.
    pub origin: char,
    /// The entry's text, with its line ending.
    pub content: T,
    /// The path of the file on the new side, where it has one.
    pub path: Option<T>,
    /// The kind of change of that file.
    pub status: ChangeKind,
    /// The structured range of the hunk, where the backend gives one.
    pub hunk: Option<HunkRange>,
}

impl View for DiffEntry<String> {
    type V = DiffEntry<Seq<char>>;

    open spec fn view(&self) -> DiffEntry<Seq<char>> {
        DiffEntry {
            origin: self.origin,
            content: self.content@,
            path: opt_view(self.path),
            status: self.status,
            hunk: self.hunk,
        }
    }
}

/// One line of a rendered diff report; the styling is left to the reader.
#[derive(Debug, Clone)]
pub enum ReportLine<T> {
    /// The empty line between two files.
    Blank,
    /// The rule above a file.
    FileSeparator,
    /// A file's change kind and path.
    FileHeader { kind: ChangeKind, path: T },
    /// An index line of a file header.
    IndexInfo { text: T },
    /// The banner of a hunk with structured ranges: first and last lines.
    HunkRange { old_first: i64, old_last: i64, new_first: i64, new_last: i64 },
    /// The banner of a hunk read from its textual header: the start lines.
    HunkStart { old_start: i64, new_start: i64 },
    /// A hunk header line that names no range.
    HunkText { text: T },
    /// An added line, with its new line number once a hunk is under way.
    Added { line: Option<i64>, text: T },
    /// A removed line, with its old line number once a hunk is under way.
    Removed { line: Option<i64>, text: T },
    /// An unchanged line, with its old and new line numbers.
    Context { old_line: Option<i64>, new_line: Option<i64>, text: T },
}

impl View for ReportLine<String> {
    type V = ReportLine<Seq<char>>;

    open spec fn view(&self) -> ReportLine<Seq<char>> {
        match self {
            ReportLine::Blank => ReportLine::Blank,
            ReportLine::FileSeparator => ReportLine::FileSeparator,
            ReportLine::FileHeader { kind, path } => ReportLine::FileHeader {
                kind: *kind,
                path: path@,
            },
            ReportLine::IndexInfo { text } => ReportLine::IndexInfo { text: text@ },
            ReportLine::HunkRange { old_first, old_last, new_first, new_last } =>
                ReportLine::HunkRange {
                old_first: *old_first,
                old_last: *old_last,
                new_first: *new_first,
                new_last: *new_last,
            },
            ReportLine::HunkStart { old_start, new_start } => ReportLine::HunkStart {
                old_start: *old_start,
                new_start: *new_start,
            },
            ReportLine::HunkText { text } => ReportLine::HunkText { text: text@ },
            ReportLine::Added { line, text } => ReportLine::Added { line: *line, text: text@ },
            ReportLine::Removed { line, text } => ReportLine::Removed { line: *line, text: text@ },
            ReportLine::Context { old_line, new_line, text } => ReportLine::Context {
                old_line: *old_line,
                new_line: *new_line,
                text: text@,
            },
        }
    }
}

/// The totals of a diff report.
#[derive(Debug, Clone, Copy, PartialEq, Eq, Structural)]
pub struct DiffSummary {
    /// Number of distinct files in the diff.
    pub files: usize,
    /// Number of added lines reported.
    pub insertions: usize,
    /// Number of removed lines reported.
    pub deletions: usize,
}

/// A rendered diff: its lines and, where it has any, its totals.
#[derive(Debug, Clone)]
pub struct DiffReport {
    pub lines: Vec<ReportLine<String>>,
    /// `None` where the diff showed no difference at all.
    pub summary: Option<DiffSummary>,
}

/// The text of each string of `v`.
pub open spec fn texts(v: Seq<String>) -> Seq<Seq<char>> {
    v.map_values(|s: String| s@)
}

/// The view of each line of `v`.
pub open spec fn line_views(v: Seq<ReportLine<String>>) -> Seq<ReportLine<Seq<char>>> {
    v.map_values(|l: ReportLine<String>| l@)
}

/// The view of each entry of `v`.
pub open spec fn entry_views(v: Seq<DiffEntry<String>>) -> Seq<DiffEntry<Seq<char>>> {
    v.map_values(|e: DiffEntry<String>| e@)
}

} // verus!
