//! The decisions and the text of the four checkpoint operations: what `list`
//! shows of each checkpoint, what `show` reports of one, the message that
//! `create` records, and when `create` and `restore` go ahead.

use vstd::prelude::*;
use crate::diff_types::{ChangeKind, texts};
use crate::error::CheckpointError;
use crate::resolver::{CommitRecord, SHORT_HASH_LEN};
use crate::text::{
    first_line, first_line_of, last_path_segment, last_path_segment_of, opt_view, strip_prefix_of,
    has_prefix, take_chars, take_chars_of, trim, trimmed, decimal, decimal_text,
};

verus! {

/// What chrono renders of a Unix time as `%Y-%m-%d %H:%M:%S` in UTC, or
/// `None` where the time is out of its range.
pub uninterp spec fn utc_time_text(secs: i64) -> Option<Seq<char>>;

/// Relies on chrono's `DateTime::from_timestamp` (`None` out of range) and on
/// its `format`, which renders the date and time of a UTC instant.
#[verifier::external_body]
fn utc_timestamp_text(secs: i64) -> (r: Option<String>)
    ensures
        match r {
            Some(s) => utc_time_text(secs) == Some(s@),
            None => utc_time_text(secs) is None,
        },
{
    chrono::DateTime::from_timestamp(secs, 0).map(|dt| dt.format("%Y-%m-%d %H:%M:%S").to_string())
}

pub open spec fn unknown_time_text() -> Seq<char> {
    "Unknown time"@
}

/// The text shown for a commit time: the rendered time, or `Unknown time`
/// where there is none.
pub open spec fn time_or_unknown(t: Option<Seq<char>>) -> Seq<char> {
    match t {
        Some(t) => t,
        None => unknown_time_text(),
    }
}

/// The text shown for the commit time `secs`.
pub open spec fn time_text(secs: i64) -> Seq<char> {
    time_or_unknown(utc_time_text(secs))
}

/// The text shown for a rendered commit time, or `Unknown time`.
pub fn time_text_of(t: Option<String>) -> (r: String)
    ensures
        r@ == time_or_unknown(opt_view(t)),
{
    match t {
        Some(t) => t,
        None => String::from_str("Unknown time"),
    }
}

/// The date and time of a commit, or `Unknown time`.
pub fn format_commit_time(secs: i64) -> (r: String)
    ensures
        r@ == time_text(secs),
{
    time_text_of(utc_timestamp_text(secs))
}

/// One line of the checkpoint list.
#[derive(Debug, Clone)]
pub struct ListEntry {
    pub short_hash: String,
    pub time: String,
    pub summary: String,
}

pub open spec fn no_commit_message_text() -> Seq<char> {
    "No commit message"@
}

pub open spec fn raw_input_prefix() -> Seq<char> {
    "Checkpoint created with raw input: "@
}

/// The first line of a checkpoint's message, less the prefix that marks raw input.
pub open spec fn list_summary(message: Option<Seq<char>>) -> Seq<char> {
    let line = match message {
        Some(m) => match first_line(m) {
            Some(l) => l,
            None => no_commit_message_text(),
        },
        None => no_commit_message_text(),
    };
    if has_prefix(line, raw_input_prefix()) {
        line.subrange(raw_input_prefix().len() as int, line.len() as int)
    } else {
        line
    }
}

/// What the list shows of a commit whose time reads `time`.
pub open spec fn entry_at(r: CommitRecord, time: Seq<char>) -> (Seq<char>, Seq<char>, Seq<char>) {
    (take_chars(r.hash@, SHORT_HASH_LEN as nat), time, list_summary(opt_view(r.message)))
}

/// What the list shows of a commit.
pub open spec fn entry_of(r: CommitRecord) -> (Seq<char>, Seq<char>, Seq<char>) {
    entry_at(r, time_text(r.time))
}

pub open spec fn entry_view(e: ListEntry) -> (Seq<char>, Seq<char>, Seq<char>) {
    (e.short_hash@, e.time@, e.summary@)
}

/// The list entry of one commit.
pub fn list_entry(r: &CommitRecord) -> (e: ListEntry)
    ensures
        entry_view(e) == entry_of(*r),
{
    list_entry_at(r, format_commit_time(r.time))
}

/// The list entry of one commit whose time reads `time`.
pub fn list_entry_at(r: &CommitRecord, time: String) -> (e: ListEntry)
    ensures
        entry_view(e) == entry_at(*r, time@),
{
    let line = match &r.message {
        Some(m) => match first_line_of(m.as_str()) {
            Some(l) => l,
            None => String::from_str("No commit message"),
        },
        None => String::from_str("No commit message"),
    };
    let summary = match strip_prefix_of(line.as_str(), "Checkpoint created with raw input: ") {
        Some(rest) => rest,
        None => line,
    };
    ListEntry {
        short_hash: take_chars_of(r.hash.as_str(), SHORT_HASH_LEN),
        time,
        summary,
    }
}

/// The list of checkpoints: the first `limit` commits of `history` (newest
/// first), one entry each, in the same order.
pub fn list_entries(history: &Vec<CommitRecord>, limit: usize) -> (r: Vec<ListEntry>)
    ensures
        r@.len() == if history@.len() < limit {
            history@.len()
        } else {
            limit as nat
        },
        forall|i: int| 0 <= i < r@.len() ==> entry_view(#[trigger] r@[i]) == entry_of(history@[i]),
{
    let mut r: Vec<ListEntry> = Vec::new();
    let mut i: usize = 0;
    while i < history.len() && i < limit
        invariant
            i <= history@.len(),
            i <= limit,
            r@.len() == i,
            forall|j: int| 0 <= j < i ==> entry_view(#[trigger] r@[j]) == entry_of(history@[j]),
        decreases history@.len() - i,
    {
        r.push(list_entry(&history[i]));
        i = i + 1;
    }
    r
}

/// A file changed by a commit: its path on the new side and its kind of change.
#[derive(Debug, Clone)]
pub struct FileDelta {
    pub path: Option<String>,
    pub status: ChangeKind,
}

/// The letter that `show` prints before a changed file.
pub open spec fn status_letter(k: ChangeKind) -> char {
    match k {
        ChangeKind::Added => 'A',
        ChangeKind::Deleted => 'D',
        ChangeKind::Modified => 'M',
        ChangeKind::Renamed => 'R',
        ChangeKind::Copied => 'C',
        ChangeKind::Other => '?',
    }
}

pub fn status_letter_of(k: ChangeKind) -> (c: char)
    ensures
        c == status_letter(k),
{
    match k {
        ChangeKind::Added => 'A',
        ChangeKind::Deleted => 'D',
        ChangeKind::Modified => 'M',
        ChangeKind::Renamed => 'R',
        ChangeKind::Copied => 'C',
        ChangeKind::Other => '?',
    }
}

/// What `show` reports of the files a commit changed.
#[derive(Debug, Clone)]
pub struct ChangeSummary {
    /// Each file with a path: its letter and path, in order.
    pub files: Vec<(char, String)>,
    pub added: usize,
    pub modified: usize,
    pub deleted: usize,
}

/// The files of `deltas` that have a path, as letter and path.
pub open spec fn shown_files(deltas: Seq<FileDelta>) -> Seq<(char, Seq<char>)>
    decreases deltas.len(),
{
    if deltas.len() == 0 {
        Seq::empty()
    } else {
        let rest = shown_files(deltas.drop_last());
        match deltas.last().path {
            Some(p) => rest.push((status_letter(deltas.last().status), p@)),
            None => rest,
        }
    }
}

/// How many files of `deltas` have a path and the change kind `k`.
pub open spec fn count_kind(deltas: Seq<FileDelta>, k: ChangeKind) -> nat
    decreases deltas.len(),
{
    if deltas.len() == 0 {
        0
    } else {
        count_kind(deltas.drop_last(), k) + if deltas.last().path is Some && deltas.last().status
            == k {
            1nat
        } else {
            0nat
        }
    }
}

proof fn lemma_counts_bounded(deltas: Seq<FileDelta>)
    ensures
        count_kind(deltas, ChangeKind::Added) + count_kind(deltas, ChangeKind::Modified)
            + count_kind(deltas, ChangeKind::Deleted) <= deltas.len(),
    decreases deltas.len(),
{
    if deltas.len() > 0 {
        lemma_counts_bounded(deltas.drop_last());
    }
}

/// The changed files of a commit and how many were added, modified and deleted.
pub fn summarize_changes(deltas: &Vec<FileDelta>) -> (r: ChangeSummary)
    ensures
        r.files@.map_values(|f: (char, String)| (f.0, f.1@)) == shown_files(deltas@),
        r.added == count_kind(deltas@, ChangeKind::Added),
        r.modified == count_kind(deltas@, ChangeKind::Modified),
        r.deleted == count_kind(deltas@, ChangeKind::Deleted),
{
    let mut files: Vec<(char, String)> = Vec::new();
    let mut added: usize = 0;
    let mut modified: usize = 0;
    let mut deleted: usize = 0;
    let mut i: usize = 0;
    while i < deltas.len()
        invariant
            i <= deltas@.len(),
            files@.map_values(|f: (char, String)| (f.0, f.1@)) == shown_files(deltas@.subrange(0, i as int)),
            added == count_kind(deltas@.subrange(0, i as int), ChangeKind::Added),
            modified == count_kind(deltas@.subrange(0, i as int), ChangeKind::Modified),
            deleted == count_kind(deltas@.subrange(0, i as int), ChangeKind::Deleted),
        decreases deltas@.len() - i,
    {
        assert(deltas@.subrange(0, i + 1).drop_last() =~= deltas@.subrange(0, i as int));
        proof {
            lemma_counts_bounded(deltas@.subrange(0, i + 1));
        }
        let d = &deltas[i];
        match &d.path {
            Some(p) => {
                let ghost before = files@;
                let entry = (status_letter_of(d.status), String::from_str(p.as_str()));
                files.push(entry);
                assert(files@.map_values(|f: (char, String)| (f.0, f.1@)) =~= before.map_values(
                    |f: (char, String)| (f.0, f.1@),
                ).push((entry.0, entry.1@)));
                match d.status {
                    ChangeKind::Added => {
                        added = added + 1;
                    },
                    ChangeKind::Modified => {
                        modified = modified + 1;
                    },
                    ChangeKind::Deleted => {
                        deleted = deleted + 1;
                    },
                    _ => {},
                }
            },
            None => {},
        }
        i = i + 1;
    }
    assert(deltas@.subrange(0, deltas@.len() as int) =~= deltas@);
    ChangeSummary { files, added, modified, deleted }
}

/// The parts `a added`, `m modified`, `d deleted` whose counts are not zero.
pub open spec fn change_parts(s: ChangeSummary) -> Seq<Seq<char>> {
    (if s.added > 0 {
        seq![decimal(s.added as nat) + " added"@]
    } else {
        Seq::empty()
    }) + (if s.modified > 0 {
        seq![decimal(s.modified as nat) + " modified"@]
    } else {
        Seq::empty()
    }) + (if s.deleted > 0 {
        seq![decimal(s.deleted as nat) + " deleted"@]
    } else {
        Seq::empty()
    })
}

/// `parts` joined by `", "`.
pub open spec fn joined(parts: Seq<Seq<char>>) -> Seq<char>
    decreases parts.len(),
{
    if parts.len() == 0 {
        Seq::empty()
    } else if parts.len() == 1 {
        parts[0]
    } else {
        joined(parts.drop_last()) + ", "@ + parts.last()
    }
}

/// The line `show` prints of the changed files: their number, then the
/// counts by kind in parentheses where any is not zero.
pub open spec fn change_summary_line(s: ChangeSummary) -> Seq<char> {
    let parts = change_parts(s);
    decimal(s.files@.len()) + " files changed"@ + if parts.len() > 0 {
        " ("@ + joined(parts) + ")"@
    } else {
        Seq::empty()
    }
}

/// The line `show` prints of the changed files.
pub fn change_summary_text(s: &ChangeSummary) -> (r: String)
    ensures
        r@ == change_summary_line(*s),
{
    let mut parts: Vec<String> = Vec::new();
    if s.added > 0 {
        parts.push(decimal_text(s.added).concat(" added"));
    }
    if s.modified > 0 {
        parts.push(decimal_text(s.modified).concat(" modified"));
    }
    if s.deleted > 0 {
        parts.push(decimal_text(s.deleted).concat(" deleted"));
    }
    assert(texts(parts@) =~= change_parts(*s));
    let mut out = decimal_text(s.files.len());
    out.append(" files changed");
    if parts.len() > 0 {
        out.append(" (");
        let ghost start = out@;
        let mut i: usize = 0;
        while i < parts.len()
            invariant
                i <= parts@.len(),
                out@ == start + joined(texts(parts@).subrange(0, i as int)),
            decreases parts@.len() - i,
        {
            let ghost pre = texts(parts@).subrange(0, i as int);
            assert(texts(parts@).subrange(0, i + 1).drop_last() =~= pre);
            if i > 0 {
                out.append(", ");
            }
            out.append(parts[i].as_str());
            proof {
                if i == 0 {
                    assert(pre =~= Seq::<Seq<char>>::empty());
                }
            }
            assert(out@ =~= start + joined(texts(parts@).subrange(0, i + 1)));
            i = i + 1;
        }
        assert(texts(parts@).subrange(0, parts@.len() as int) =~= texts(parts@));
        out.append(")");
    }
    assert(out@ =~= change_summary_line(*s));
    out
}

/// The metadata `show` prints of a checkpoint.
#[derive(Debug, Clone)]
pub struct CheckpointDetails {
    pub full_hash: String,
    pub author_name: String,
    pub author_email: String,
    pub date: String,
    pub message: String,
}

/// A value, or the text used where it is missing.
pub open spec fn or_text(v: Option<Seq<char>>, fallback: Seq<char>) -> Seq<char> {
    match v {
        Some(t) => t,
        None => fallback,
    }
}

fn or_string(v: &Option<String>, fallback: &str) -> (r: String)
    ensures
        r@ == or_text(opt_view(*v), fallback@),
{
    match v {
        Some(t) => String::from_str(t.as_str()),
        None => String::from_str(fallback),
    }
}

/// The details of a commit, with `Unknown` and `unknown` for a missing author
/// name and email and an empty message where it has none.
pub fn checkpoint_details(
    record: &CommitRecord,
    author_name: &Option<String>,
    author_email: &Option<String>,
) -> (r: CheckpointDetails)
    ensures
        r.full_hash@ == record.hash@,
        r.author_name@ == or_text(opt_view(*author_name), "Unknown"@),
        r.author_email@ == or_text(opt_view(*author_email), "unknown"@),
        r.date@ == time_text(record.time),
        r.message@ == or_text(opt_view(record.message), Seq::empty()),
{
    proof {
        reveal_strlit("");
    }
    CheckpointDetails {
        full_hash: String::from_str(record.hash.as_str()),
        author_name: or_string(author_name, "Unknown"),
        author_email: or_string(author_email, "unknown"),
        date: format_commit_time(record.time),
        message: or_string(&record.message, ""),
    }
}

/// What an editing tool reported of a change, as read from its payload.
#[derive(Debug, Clone)]
pub struct HookData {
    pub tool_name: String,
    /// The path of the file the tool worked on, where its input names one.
    pub file_path: Option<String>,
    /// The changed lines, grouped as the tool reported them.
    pub patches: Option<Vec<Vec<String>>>,
    /// The tool's input, as pretty-printed JSON.
    pub tool_input_text: String,
}

/// The title of a checkpoint made from a tool's payload: the tool's name, and
/// the name of the file it worked on where there is one.
pub open spec fn hook_title(tool: Seq<char>, path: Option<Seq<char>>) -> Seq<char> {
    let base = match path {
        Some(p) => last_path_segment(p),
        None => Seq::empty(),
    };
    if base.len() == 0 {
        tool
    } else {
        tool + " on "@ + base
    }
}

/// Each of `lines` indented by two spaces and ended by a newline.
pub open spec fn indented(lines: Seq<Seq<char>>) -> Seq<char>
    decreases lines.len(),
{
    if lines.len() == 0 {
        Seq::empty()
    } else {
        indented(lines.drop_last()) + "  "@ + lines.last() + "\n"@
    }
}

/// The lines of every group, indented, in order.
pub open spec fn indented_groups(groups: Seq<Seq<Seq<char>>>) -> Seq<char>
    decreases groups.len(),
{
    if groups.len() == 0 {
        Seq::empty()
    } else {
        indented_groups(groups.drop_last()) + indented(groups.last())
    }
}

pub open spec fn groups_view(g: Vec<Vec<String>>) -> Seq<Seq<Seq<char>>> {
    g@.map_values(|v: Vec<String>| texts(v@))
}

/// The message of a checkpoint made from a tool's payload: the title, the
/// changed lines where the payload has them, and the tool's input.
pub open spec fn hook_message(h: HookData) -> Seq<char> {
    let changes = match h.patches {
        Some(g) => "Changes:\n"@ + indented_groups(groups_view(g)) + "\n"@,
        None => Seq::empty(),
    };
    hook_title(h.tool_name@, opt_view(h.file_path)) + "\n\n"@ + changes + "Tool Input:\n"@
        + h.tool_input_text@
}

fn indent_lines(out: &mut String, lines: &Vec<String>)
    ensures
        final(out)@ == old(out)@ + indented(texts(lines@)),
{
    let ghost start = out@;
    let mut i: usize = 0;
    while i < lines.len()
        invariant
            i <= lines@.len(),
            out@ == start + indented(texts(lines@).subrange(0, i as int)),
        decreases lines@.len() - i,
    {
        assert(texts(lines@).subrange(0, i + 1).drop_last() =~= texts(lines@).subrange(0, i as int));
        out.append("  ");
        out.append(lines[i].as_str());
        out.append("\n");
        assert(out@ =~= start + indented(texts(lines@).subrange(0, i + 1)));
        i = i + 1;
    }
    assert(texts(lines@).subrange(0, lines@.len() as int) =~= texts(lines@));
}

/// The message of a checkpoint made from a tool's payload.
pub fn format_commit_message(h: &HookData) -> (r: String)
    ensures
        r@ == hook_message(*h),
{
    let base = match &h.file_path {
        Some(p) => last_path_segment_of(p.as_str()),
        None => String::new(),
    };
    let mut out = String::from_str(h.tool_name.as_str());
    if base.as_str().unicode_len() > 0 {
        out.append(" on ");
        out.append(base.as_str());
    }
    assert(out@ == hook_title(h.tool_name@, opt_view(h.file_path)));
    out.append("\n\n");
    match &h.patches {
        Some(g) => {
            out.append("Changes:\n");
            let ghost mid = out@;
            let mut i: usize = 0;
            while i < g.len()
                invariant
                    i <= g@.len(),
                    out@ == mid + indented_groups(groups_view(*g).subrange(0, i as int)),
                decreases g@.len() - i,
            {
                assert(groups_view(*g).subrange(0, i + 1).drop_last() =~= groups_view(*g).subrange(
                    0,
                    i as int,
                ));
                indent_lines(&mut out, &g[i]);
                assert(out@ =~= mid + indented_groups(groups_view(*g).subrange(0, i + 1)));
                i = i + 1;
            }
            assert(groups_view(*g).subrange(0, g@.len() as int) =~= groups_view(*g));
            out.append("\n");
        },
        None => {},
    }
    out.append("Tool Input:\n");
    out.append(h.tool_input_text.as_str());
    assert(out@ =~= hook_message(*h));
    out
}

pub open spec fn manual_message() -> Seq<char> {
    "Manual checkpoint"@
}

/// The message of a new checkpoint: the one given; else the text read from
/// the standard input, as a tool's payload where it parsed as one; else a
/// fixed message for a checkpoint made by hand.
pub open spec fn checkpoint_message(
    given: Option<Seq<char>>,
    input: Option<Seq<char>>,
    payload: Option<HookData>,
) -> Seq<char> {
    match given {
        Some(m) => m,
        None => match input {
            Some(t) => if trimmed(t).len() > 0 {
                match payload {
                    Some(h) => hook_message(h),
                    None => t,
                }
            } else {
                manual_message()
            },
            None => manual_message(),
        },
    }
}

/// Chooses the message of a new checkpoint; `payload` is `input` read as a
/// tool's payload, where it parsed as one.
pub fn choose_commit_message(
    given: &Option<String>,
    input: &Option<String>,
    payload: &Option<HookData>,
) -> (r: String)
    ensures
        r@ == checkpoint_message(opt_view(*given), opt_view(*input), *payload),
{
    match given {
        Some(m) => String::from_str(m.as_str()),
        None => match input {
            Some(t) => {
                let tt = trim(t.as_str());
                if tt.as_str().unicode_len() > 0 {
                    match payload {
                        Some(h) => format_commit_message(h),
                        None => String::from_str(t.as_str()),
                    }
                } else {
                    String::from_str("Manual checkpoint")
                }
            },
            None => String::from_str("Manual checkpoint"),
        },
    }
}

/// Whether the working tree holds something to commit: against the tip where
/// there is one, else whether any file that is not ignored exists.
pub open spec fn changes_pending(has_parent: bool, non_ignored_files: bool, changed_files: nat) -> bool {
    if has_parent {
        changed_files > 0
    } else {
        non_ignored_files
    }
}

pub fn has_changes_to_commit(has_parent: bool, non_ignored_files: bool, changed_files: usize) -> (r:
    bool)
    ensures
        r == changes_pending(has_parent, non_ignored_files, changed_files as nat),
{
    if has_parent {
        changed_files > 0
    } else {
        non_ignored_files
    }
}

/// Go ahead with a commit only where there is something to commit.
pub fn check_changes(pending: bool) -> (r: Result<(), CheckpointError>)
    ensures
        pending <==> r is Ok,
        !pending ==> r matches Err(CheckpointError::NoChangesToCommit),
{
    if pending {
        Ok(())
    } else {
        Err(CheckpointError::NoChangesToCommit)
    }
}

/// A `create` right after another, with no file changed in between, commits
/// nothing: against a tip that the working tree matches no change is pending,
/// so the commit is refused for want of changes, which `create` reports as
/// nothing to commit rather than as a failure.
pub proof fn lemma_unchanged_tree_commits_nothing(non_ignored_files: bool)
    ensures
        !changes_pending(true, non_ignored_files, 0),
{
}

/// How a `create` ended.
#[derive(Debug, Clone)]
pub enum CreateOutcome {
    /// A checkpoint was made, with this hash.
    Created(String),
    /// The working tree matched the tip: nothing was committed.
    NothingToCommit,
}

/// The outcome of `create` from the result of the commit: a commit refused
/// for want of changes is no failure.
pub fn settle_create(r: Result<String, CheckpointError>) -> (o: Result<CreateOutcome, CheckpointError>)
    ensures
        r matches Ok(h) ==> o == Ok::<CreateOutcome, CheckpointError>(CreateOutcome::Created(h)),
        r matches Err(CheckpointError::NoChangesToCommit) ==> o matches Ok(CreateOutcome::NothingToCommit),
        r is Err && !(r->Err_0 is NoChangesToCommit) ==> o == Err::<CreateOutcome, CheckpointError>(
            r->Err_0,
        ),
{
    match r {
        Ok(h) => Ok(CreateOutcome::Created(h)),
        Err(CheckpointError::NoChangesToCommit) => Ok(CreateOutcome::NothingToCommit),
        Err(e) => Err(e),
    }
}

/// What `restore` is to do once the target is resolved.
#[derive(Debug, Clone, Copy, PartialEq, Eq, Structural)]
pub struct RestorePlan {
    /// How many checkpoints newer than the target the reset discards.
    pub discarded: usize,
    /// Whether to warn of them before the reset.
    pub warn: bool,
}

/// Refuses to restore over uncommitted changes; otherwise plans the reset,
/// with a warning where checkpoints are discarded.
pub fn plan_restore(dirty: bool, discarded: usize) -> (r: Result<RestorePlan, CheckpointError>)
    ensures
        dirty <==> r matches Err(CheckpointError::UncommittedChanges),
        !dirty ==> r == Ok::<RestorePlan, CheckpointError>(
            RestorePlan { discarded, warn: discarded > 0 },
        ),
{
    if dirty {
        Err(CheckpointError::UncommittedChanges)
    } else {
        Ok(RestorePlan { discarded, warn: discarded > 0 })
    }
}

} // verus!
