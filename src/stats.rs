//! Line and file statistics of a diff.

use vstd::prelude::*;
use crate::diff_types::{ChangeKind, DiffEntry, entry_views};
use crate::lifecycle::FileDelta;
use crate::render::{is_change, is_marker};
use crate::text::contains;

verus! {

/// Statistics about the differences of a diff.
#[derive(Debug, Clone, PartialEq, Eq, Structural)]
pub struct DiffStats {
    /// Total number of files changed.
    pub total_files: usize,
    /// Number of lines added across all files.
    pub additions: i32,
    /// Number of lines deleted across all files.
    pub deletions: i32,
    /// Number of files modified (not counting pure additions and deletions).
    pub modifications: i32,
}

impl DiffStats {
    /// Statistics with every count at zero.
    pub fn new() -> (r: Self)
        ensures
            r.total_files == 0 && r.additions == 0 && r.deletions == 0 && r.modifications == 0,
    {
        DiffStats { total_files: 0, additions: 0, deletions: 0, modifications: 0 }
    }
}

impl Default for DiffStats {
    fn default() -> (r: Self)
        ensures
            r.total_files == 0 && r.additions == 0 && r.deletions == 0 && r.modifications == 0,
    {
        Self::new()
    }
}

/// A changed file with its line statistics.
#[derive(Debug, Clone)]
pub struct FileChangeInfo {
    /// Path of the file relative to the repository root.
    pub path: String,
    /// Kind of change made to the file.
    pub status: ChangeKind,
    /// Number of lines added.
    pub additions: i32,
    /// Number of lines deleted.
    pub deletions: i32,
}

impl FileChangeInfo {
    /// A changed file with no line changes counted yet.
    pub fn new(path: String, status: ChangeKind) -> (r: Self)
        ensures
            r.path == path && r.status == status && r.additions == 0 && r.deletions == 0,
    {
        FileChangeInfo { path, status, additions: 0, deletions: 0 }
    }

    /// A changed file with its line statistics.
    pub fn with_stats(path: String, status: ChangeKind, additions: i32, deletions: i32) -> (r: Self)
        ensures
            r.path == path && r.status == status && r.additions == additions && r.deletions
                == deletions,
    {
        FileChangeInfo { path, status, additions, deletions }
    }
}

/// How many of `deltas` have a path (with `modified`, and are modifications).
pub open spec fn count_files(deltas: Seq<FileDelta>, modified: bool) -> nat
    decreases deltas.len(),
{
    if deltas.len() == 0 {
        0
    } else {
        count_files(deltas.drop_last(), modified) + if deltas.last().path is Some && (!modified
            || deltas.last().status == ChangeKind::Modified) {
            1nat
        } else {
            0nat
        }
    }
}

/// How many of `entries` are added lines (or, with `origin` `'-'`, removed lines).
pub open spec fn count_changes(entries: Seq<DiffEntry<Seq<char>>>, origin: char) -> nat
    decreases entries.len(),
{
    if entries.len() == 0 {
        0
    } else {
        count_changes(entries.drop_last(), origin) + if is_change(entries.last())
            && entries.last().origin == origin {
            1nat
        } else {
            0nat
        }
    }
}

proof fn lemma_count_files_bounded(deltas: Seq<FileDelta>, modified: bool)
    ensures
        count_files(deltas, modified) <= deltas.len(),
    decreases deltas.len(),
{
    if deltas.len() > 0 {
        lemma_count_files_bounded(deltas.drop_last(), modified);
    }
}

proof fn lemma_count_changes_bounded(entries: Seq<DiffEntry<Seq<char>>>, origin: char)
    ensures
        count_changes(entries, origin) <= entries.len(),
    decreases entries.len(),
{
    if entries.len() > 0 {
        lemma_count_changes_bounded(entries.drop_last(), origin);
    }
}

/// The statistics of a diff from its files and its streamed lines: files with
/// a path, the modified ones among them, and the added and removed lines, not
/// counting the markers of a missing end-of-file newline.
pub fn calculate_diff_stats(deltas: &Vec<FileDelta>, entries: &Vec<DiffEntry<String>>) -> (r: DiffStats)
    requires
        deltas@.len() <= i32::MAX,
        entries@.len() <= i32::MAX,
    ensures
        r.total_files == count_files(deltas@, false),
        r.modifications == count_files(deltas@, true),
        r.additions == count_changes(entry_views(entries@), '+'),
        r.deletions == count_changes(entry_views(entries@), '-'),
{
    let mut stats = DiffStats::new();
    let mut total: usize = 0;
    let mut i: usize = 0;
    while i < deltas.len()
        invariant
            i <= deltas@.len() <= i32::MAX,
            total == count_files(deltas@.subrange(0, i as int), false),
            stats.modifications == count_files(deltas@.subrange(0, i as int), true),
            stats.additions == 0 && stats.deletions == 0,
        decreases deltas@.len() - i,
    {
        assert(deltas@.subrange(0, i + 1).drop_last() =~= deltas@.subrange(0, i as int));
        proof {
            lemma_count_files_bounded(deltas@.subrange(0, i + 1), false);
            lemma_count_files_bounded(deltas@.subrange(0, i + 1), true);
        }
        if deltas[i].path.is_some() {
            total = total + 1;
            if deltas[i].status == ChangeKind::Modified {
                stats.modifications = stats.modifications + 1;
            }
        }
        i = i + 1;
    }
    assert(deltas@.subrange(0, deltas@.len() as int) =~= deltas@);
    stats.total_files = total;
    let ghost ev = entry_views(entries@);
    let mut k: usize = 0;
    while k < entries.len()
        invariant
            k <= entries@.len() <= i32::MAX,
            ev == entry_views(entries@),
            stats.total_files == count_files(deltas@, false),
            stats.modifications == count_files(deltas@, true),
            stats.additions == count_changes(ev.subrange(0, k as int), '+'),
            stats.deletions == count_changes(ev.subrange(0, k as int), '-'),
        decreases entries@.len() - k,
    {
        assert(ev.subrange(0, k + 1).drop_last() =~= ev.subrange(0, k as int));
        proof {
            lemma_count_changes_bounded(ev.subrange(0, k + 1), '+');
            lemma_count_changes_bounded(ev.subrange(0, k + 1), '-');
        }
        let e = &entries[k];
        let marker = contains(e.content.as_str(), "No newline at end of file") || e.origin == '>'
            || e.origin == '<';
        assert(marker == is_marker(ev[k as int]));
        if !marker {
            if e.origin == '+' {
                stats.additions = stats.additions + 1;
            } else if e.origin == '-' {
                stats.deletions = stats.deletions + 1;
            }
        }
        k = k + 1;
    }
    assert(ev.subrange(0, entries@.len() as int) =~= ev);
    stats
}

} // verus!
