//! The diff renderer: turns a streamed structural diff into a line-numbered
//! report with totals, folding the spurious delete and add pairs that a change
//! at a missing end-of-file newline produces.

use vstd::prelude::*;
use crate::diff_types::{
    DiffEntry, DiffReport, DiffSummary, HunkRange, ReportLine, entry_views,
    line_views, texts,
};
use crate::hunk_header::{header_starts, header_starts_of};
use crate::text::{contains, contains_text, decimal, decimal_text, has_prefix, starts_with, trim, trimmed};

verus! {

/// An added or removed line held back while it may belong to an end-of-file
/// newline change.
#[derive(Debug, Clone)]
pub struct Pending<T> {
    pub removed: bool,
    pub text: T,
    pub line: Option<i64>,
}

impl View for Pending<String> {
    type V = Pending<Seq<char>>;

    open spec fn view(&self) -> Pending<Seq<char>> {
        Pending { removed: self.removed, text: self.text@, line: self.line }
    }
}

/// The renderer's state between two entries.
pub struct RenderModel {
    /// The lines rendered so far.
    pub lines: Seq<ReportLine<Seq<char>>>,
    /// A file with a non-empty path has been opened.
    pub named: bool,
    /// The current file is one of the diff's files, so its lines count.
    pub counting: bool,
    pub insertions: nat,
    pub deletions: nat,
    /// The next old and new line numbers.
    pub old_line: int,
    pub new_line: int,
    /// A hunk header has set the line numbers of the current file.
    pub in_hunk: bool,
    /// The run of added and removed lines not yet rendered.
    pub run: Seq<Pending<Seq<char>>>,
    /// A "no newline at end of file" marker stands next to the run.
    pub marked: bool,
}

pub open spec fn marker_text() -> Seq<char> {
    "No newline at end of file"@
}

pub open spec fn file_header_prefix() -> Seq<char> {
    "diff --git"@
}

pub open spec fn index_prefix() -> Seq<char> {
    "index "@
}

pub open spec fn hunk_prefix() -> Seq<char> {
    "@@"@
}

/// An entry that marks a missing newline at the end of a file.
pub open spec fn is_marker(e: DiffEntry<Seq<char>>) -> bool {
    contains_text(e.content, marker_text()) || e.origin == '>' || e.origin == '<'
}

/// An added or removed line.
pub open spec fn is_change(e: DiffEntry<Seq<char>>) -> bool {
    !is_marker(e) && (e.origin == '+' || e.origin == '-')
}

/// The header that opens a file.
pub open spec fn is_file_header(e: DiffEntry<Seq<char>>) -> bool {
    !is_marker(e) && e.origin == 'F' && has_prefix(e.content, file_header_prefix())
}

pub open spec fn initial_model() -> RenderModel {
    RenderModel {
        lines: Seq::empty(),
        named: false,
        counting: false,
        insertions: 0,
        deletions: 0,
        old_line: 1,
        new_line: 1,
        in_hunk: false,
        run: Seq::empty(),
        marked: false,
    }
}

/// The entries of `run` that are removals (or, with `removed` false, additions), in order.
pub open spec fn select(run: Seq<Pending<Seq<char>>>, removed: bool) -> Seq<Pending<Seq<char>>>
    decreases run.len(),
{
    if run.len() == 0 {
        Seq::empty()
    } else {
        let s = select(run.drop_last(), removed);
        if run.last().removed == removed {
            s.push(run.last())
        } else {
            s
        }
    }
}

/// A held-back line rendered as it stands.
pub open spec fn literal_line(p: Pending<Seq<char>>) -> ReportLine<Seq<char>> {
    if p.removed {
        ReportLine::Removed { line: p.line, text: p.text }
    } else {
        ReportLine::Added { line: p.line, text: p.text }
    }
}

/// One removal and two additions, the first of them the removed line again:
/// a newline was added to the last line and a line appended.
pub open spec fn is_appended_line(m: RenderModel) -> bool {
    let dels = select(m.run, true);
    let adds = select(m.run, false);
    m.marked && dels.len() == 1 && adds.len() == 2 && trimmed(dels[0].text) == trimmed(
        adds[0].text,
    )
}

/// Two removals and one addition, the addition the first removed line again:
/// the last line was removed and the newline kept.
pub open spec fn is_dropped_line(m: RenderModel) -> bool {
    let dels = select(m.run, true);
    let adds = select(m.run, false);
    m.marked && dels.len() == 2 && adds.len() == 1 && trimmed(dels[0].text) == trimmed(
        adds[0].text,
    )
}

pub open spec fn count_if(counting: bool, n: nat) -> nat {
    if counting {
        n
    } else {
        0
    }
}

/// Renders the held-back run and clears it.
pub open spec fn flush(m: RenderModel) -> RenderModel {
    let dels = select(m.run, true);
    let adds = select(m.run, false);
    if is_appended_line(m) {
        RenderModel {
            lines: m.lines.push(
                ReportLine::Context {
                    old_line: dels[0].line,
                    new_line: adds[0].line,
                    text: trimmed(dels[0].text),
                },
            ).push(ReportLine::Added { line: adds[1].line, text: trimmed(adds[1].text) }),
            insertions: m.insertions + count_if(m.counting, 1),
            run: Seq::empty(),
            marked: false,
            ..m
        }
    } else if is_dropped_line(m) {
        RenderModel {
            lines: m.lines.push(
                ReportLine::Context {
                    old_line: dels[0].line,
                    new_line: adds[0].line,
                    text: trimmed(dels[0].text),
                },
            ).push(ReportLine::Removed { line: dels[1].line, text: trimmed(dels[1].text) }),
            deletions: m.deletions + count_if(m.counting, 1),
            run: Seq::empty(),
            marked: false,
            ..m
        }
    } else {
        RenderModel {
            lines: m.lines + m.run.map_values(|p: Pending<Seq<char>>| literal_line(p)),
            insertions: m.insertions + count_if(m.counting, adds.len()),
            deletions: m.deletions + count_if(m.counting, dels.len()),
            run: Seq::empty(),
            marked: false,
            ..m
        }
    }
}

/// The last line of a range that starts at `start` and spans `count` lines.
pub open spec fn range_last(start: u32, count: u32) -> int {
    if count > 0 {
        start + count - 1
    } else {
        start as int
    }
}

pub open spec fn number_if(in_hunk: bool, n: int) -> Option<i64> {
    if in_hunk {
        Some(n as i64)
    } else {
        None
    }
}

/// The effect of a file header entry.
pub open spec fn apply_file_header(m: RenderModel, e: DiffEntry<Seq<char>>, known: Seq<Seq<char>>) -> RenderModel {
    if has_prefix(e.content, file_header_prefix()) {
        let m1 = if m.named {
            RenderModel { lines: m.lines.push(ReportLine::Blank), ..m }
        } else {
            m
        };
        match e.path {
            Some(p) => RenderModel {
                lines: m1.lines.push(ReportLine::FileSeparator).push(
                    ReportLine::FileHeader { kind: e.status, path: p },
                ),
                named: p.len() > 0,
                counting: known.contains(p),
                in_hunk: false,
                old_line: 0,
                new_line: 0,
                ..m1
            },
            None => m1,
        }
    } else if has_prefix(e.content, index_prefix()) {
        RenderModel { lines: m.lines.push(ReportLine::IndexInfo { text: trimmed(e.content) }), ..m }
    } else {
        m
    }
}

/// The effect of a hunk header entry.
pub open spec fn apply_hunk_header(m: RenderModel, e: DiffEntry<Seq<char>>) -> RenderModel {
    match e.hunk {
        Some(h) => RenderModel {
            lines: m.lines.push(
                ReportLine::HunkRange {
                    old_first: h.old_start as i64,
                    old_last: range_last(h.old_start, h.old_lines) as i64,
                    new_first: h.new_start as i64,
                    new_last: range_last(h.new_start, h.new_lines) as i64,
                },
            ),
            old_line: h.old_start as int,
            new_line: h.new_start as int,
            in_hunk: true,
            ..m
        },
        None => if has_prefix(e.content, hunk_prefix()) {
            let starts = header_starts(e.content);
            let old_line = match starts.0 {
                Some(v) => v,
                None => m.old_line,
            };
            let new_line = match starts.1 {
                Some(v) => v,
                None => m.new_line,
            };
            RenderModel {
                lines: m.lines.push(
                    ReportLine::HunkStart { old_start: old_line as i64, new_start: new_line as i64 },
                ),
                old_line,
                new_line,
                in_hunk: m.in_hunk || starts.0 is Some,
                ..m
            }
        } else {
            RenderModel { lines: m.lines.push(ReportLine::HunkText { text: trimmed(e.content) }), ..m }
        },
    }
}

/// The effect of a context line.
pub open spec fn apply_context(m: RenderModel, e: DiffEntry<Seq<char>>) -> RenderModel {
    RenderModel {
        lines: m.lines.push(
            ReportLine::Context {
                old_line: number_if(m.in_hunk, m.old_line),
                new_line: number_if(m.in_hunk, m.new_line),
                text: e.content,
            },
        ),
        old_line: if m.in_hunk {
            m.old_line + 1
        } else {
            m.old_line
        },
        new_line: if m.in_hunk {
            m.new_line + 1
        } else {
            m.new_line
        },
        ..m
    }
}

/// The effect of an added or removed line: it joins the held-back run.
pub open spec fn hold_change(m: RenderModel, e: DiffEntry<Seq<char>>) -> RenderModel {
    let removed = e.origin == '-';
    let n = if removed {
        m.old_line
    } else {
        m.new_line
    };
    RenderModel {
        run: m.run.push(Pending { removed, text: e.content, line: number_if(m.in_hunk, n) }),
        old_line: if m.in_hunk && removed {
            m.old_line + 1
        } else {
            m.old_line
        },
        new_line: if m.in_hunk && !removed {
            m.new_line + 1
        } else {
            m.new_line
        },
        ..m
    }
}

/// The effect of one entry; `known` holds the paths of the diff's files.
pub open spec fn step(m: RenderModel, e: DiffEntry<Seq<char>>, known: Seq<Seq<char>>) -> RenderModel {
    if is_marker(e) {
        RenderModel { marked: true, ..m }
    } else if e.origin == '+' || e.origin == '-' {
        hold_change(m, e)
    } else {
        let f = flush(m);
        if e.origin == 'F' {
            apply_file_header(f, e, known)
        } else if e.origin == 'H' {
            apply_hunk_header(f, e)
        } else if e.origin == ' ' {
            apply_context(f, e)
        } else {
            f
        }
    }
}

/// The state after the entries of `entries`, in order.
pub open spec fn render_model(entries: Seq<DiffEntry<Seq<char>>>, known: Seq<Seq<char>>) -> RenderModel
    decreases entries.len(),
{
    if entries.len() == 0 {
        initial_model()
    } else {
        step(render_model(entries.drop_last(), known), entries.last(), known)
    }
}

/// The state once every entry is in and the last run is rendered.
pub open spec fn rendered(entries: Seq<DiffEntry<Seq<char>>>, known: Seq<Seq<char>>) -> RenderModel {
    flush(render_model(entries, known))
}

/// The strings of `s` without repeats, each where it first occurs.
pub open spec fn distinct(s: Seq<Seq<char>>) -> Seq<Seq<char>>
    decreases s.len(),
{
    if s.len() == 0 {
        Seq::empty()
    } else {
        let d = distinct(s.drop_last());
        if d.contains(s.last()) {
            d
        } else {
            d.push(s.last())
        }
    }
}

/// The totals of a report, `None` where it has no line at all.
pub open spec fn summary_of(m: RenderModel, known: Seq<Seq<char>>) -> Option<DiffSummary> {
    if m.lines.len() == 0 {
        None
    } else {
        Some(
            DiffSummary {
                files: distinct(known).len() as usize,
                insertions: m.insertions as usize,
                deletions: m.deletions as usize,
            },
        )
    }
}

/// Line numbers and totals within reach of `k` entries.
pub open spec fn bounded(m: RenderModel, k: nat) -> bool {
    &&& m.insertions + m.deletions + m.run.len() <= k
    &&& -0x8000_0000 <= m.old_line <= 0xffff_ffff + k
    &&& -0x8000_0000 <= m.new_line <= 0xffff_ffff + k
}

/// The renderer's state as executable values.
struct Renderer {
    lines: Vec<ReportLine<String>>,
    named: bool,
    counting: bool,
    insertions: usize,
    deletions: usize,
    old_line: i64,
    new_line: i64,
    in_hunk: bool,
    run: Vec<Pending<String>>,
    marked: bool,
}

impl View for Renderer {
    type V = RenderModel;

    closed spec fn view(&self) -> RenderModel {
        RenderModel {
            lines: line_views(self.lines@),
            named: self.named,
            counting: self.counting,
            insertions: self.insertions as nat,
            deletions: self.deletions as nat,
            old_line: self.old_line as int,
            new_line: self.new_line as int,
            in_hunk: self.in_hunk,
            run: self.run@.map_values(|p: Pending<String>| p@),
            marked: self.marked,
        }
    }
}

fn clone_text(s: &String) -> (r: String)
    ensures
        r@ == s@,
{
    String::from_str(s.as_str())
}

fn pending_line(p: &Pending<String>) -> (r: ReportLine<String>)
    ensures
        r@ == literal_line(p@),
{
    if p.removed {
        ReportLine::Removed { line: p.line, text: clone_text(&p.text) }
    } else {
        ReportLine::Added { line: p.line, text: clone_text(&p.text) }
    }
}

/// The positions in `run` of its removals (or additions), in order.
fn selected(run: &Vec<Pending<String>>, removed: bool) -> (r: Vec<usize>)
    ensures
        r@.len() == select(run@.map_values(|p: Pending<String>| p@), removed).len(),
        forall|t: int|
            0 <= t < r@.len() ==> (#[trigger] r@[t]) < run@.len() && run@[r@[t] as int]@ == select(
                run@.map_values(|p: Pending<String>| p@),
                removed,
            )[t],
{
    let ghost v = run@.map_values(|p: Pending<String>| p@);
    let mut r: Vec<usize> = Vec::new();
    let mut i: usize = 0;
    while i < run.len()
        invariant
            i <= run@.len(),
            v == run@.map_values(|p: Pending<String>| p@),
            r@.len() == select(v.subrange(0, i as int), removed).len(),
            forall|t: int|
                0 <= t < r@.len() ==> (#[trigger] r@[t]) < i && run@[r@[t] as int]@ == select(
                    v.subrange(0, i as int),
                    removed,
                )[t],
        decreases run@.len() - i,
    {
        assert(v.subrange(0, i + 1).drop_last() =~= v.subrange(0, i as int));
        if run[i].removed == removed {
            r.push(i);
        }
        i = i + 1;
    }
    assert(v.subrange(0, run@.len() as int) =~= v);
    r
}

fn known_contains(paths: &Vec<String>, p: &String) -> (r: bool)
    ensures
        r == texts(paths@).contains(p@),
{
    let mut i: usize = 0;
    while i < paths.len()
        invariant
            i <= paths@.len(),
            forall|j: int| 0 <= j < i ==> texts(paths@)[j] != p@,
        decreases paths@.len() - i,
    {
        if paths[i] == *p {
            assert(texts(paths@)[i as int] == p@);
            return true;
        }
        i = i + 1;
    }
    false
}

/// The number of distinct paths in `paths`.
fn distinct_count(paths: &Vec<String>) -> (r: usize)
    ensures
        r == distinct(texts(paths@)).len(),
{
    let ghost v = texts(paths@);
    let mut seen: Vec<String> = Vec::new();
    let mut i: usize = 0;
    while i < paths.len()
        invariant
            i <= paths@.len(),
            v == texts(paths@),
            texts(seen@) == distinct(v.subrange(0, i as int)),
            seen@.len() <= i,
        decreases paths@.len() - i,
    {
        assert(v.subrange(0, i + 1).drop_last() =~= v.subrange(0, i as int));
        if !known_contains(&seen, &paths[i]) {
            let c = clone_text(&paths[i]);
            let ghost before = seen@;
            seen.push(c);
            assert(texts(seen@) =~= texts(before).push(c@));
        }
        i = i + 1;
    }
    assert(v.subrange(0, paths@.len() as int) =~= v);
    seen.len()
}

impl Renderer {
    fn new() -> (r: Renderer)
        ensures
            r@ == initial_model(),
    {
        let r = Renderer {
            lines: Vec::new(),
            named: false,
            counting: false,
            insertions: 0,
            deletions: 0,
            old_line: 1,
            new_line: 1,
            in_hunk: false,
            run: Vec::new(),
            marked: false,
        };
        assert(r@.lines =~= Seq::<ReportLine<Seq<char>>>::empty());
        assert(r@.run =~= Seq::<Pending<Seq<char>>>::empty());
        r
    }

    fn push_line(&mut self, l: ReportLine<String>)
        ensures
            final(self)@ == (RenderModel { lines: old(self)@.lines.push(l@), ..old(self)@ }),
            final(self).run@ == old(self).run@,
    {
        let ghost before = self.lines@;
        self.lines.push(l);
        assert(line_views(self.lines@) =~= line_views(before).push(l@));
    }

    fn clear_run(&mut self)
        ensures
            final(self)@ == (RenderModel { run: Seq::empty(), marked: false, ..old(self)@ }),
    {
        self.run = Vec::new();
        self.marked = false;
        assert(self@.run =~= Seq::<Pending<Seq<char>>>::empty());
    }

    fn flush(&mut self)
        requires
            old(self)@.insertions + old(self)@.deletions + old(self)@.run.len() <= i32::MAX,
        ensures
            final(self)@ == flush(old(self)@),
            final(self)@.insertions + final(self)@.deletions <= old(self)@.insertions + old(
                self,
            )@.deletions + old(self)@.run.len(),
    {
        let ghost m = self@;
        let dels = selected(&self.run, true);
        let adds = selected(&self.run, false);
        let ghost sd = select(m.run, true);
        let ghost sa = select(m.run, false);
        if self.marked && dels.len() == 1 && adds.len() == 2 {
            let d0 = trim(self.run[dels[0]].text.as_str());
            let a0 = trim(self.run[adds[0]].text.as_str());
            if d0 == a0 {
                assert(sd[0] == self.run@[dels[0] as int]@);
                assert(sa[0] == self.run@[adds[0] as int]@);
                assert(sa[1] == self.run@[adds[1] as int]@);
                assert(is_appended_line(m));
                let a1 = trim(self.run[adds[1]].text.as_str());
                let ctx = ReportLine::Context {
                    old_line: self.run[dels[0]].line,
                    new_line: self.run[adds[0]].line,
                    text: d0,
                };
                self.push_line(ctx);
                let added = ReportLine::Added { line: self.run[adds[1]].line, text: a1 };
                self.push_line(added);
                if self.counting {
                    self.insertions = self.insertions + 1;
                }
                self.clear_run();
                return;
            }
        }
        if self.marked && dels.len() == 2 && adds.len() == 1 {
            let d0 = trim(self.run[dels[0]].text.as_str());
            let a0 = trim(self.run[adds[0]].text.as_str());
            if d0 == a0 {
                assert(sd[0] == self.run@[dels[0] as int]@);
                assert(sa[0] == self.run@[adds[0] as int]@);
                assert(sd[1] == self.run@[dels[1] as int]@);
                assert(is_dropped_line(m));
                let d1 = trim(self.run[dels[1]].text.as_str());
                let ctx = ReportLine::Context {
                    old_line: self.run[dels[0]].line,
                    new_line: self.run[adds[0]].line,
                    text: d0,
                };
                self.push_line(ctx);
                let removed = ReportLine::Removed { line: self.run[dels[1]].line, text: d1 };
                self.push_line(removed);
                if self.counting {
                    self.deletions = self.deletions + 1;
                }
                self.clear_run();
                return;
            }
        }
        assert(!is_appended_line(m) && !is_dropped_line(m));
        let mut i: usize = 0;
        while i < self.run.len()
            invariant
                i <= self.run@.len(),
                self.run@.len() == m.run.len(),
                self.run@.map_values(|p: Pending<String>| p@) == m.run,
                self@ == (RenderModel {
                    lines: m.lines + m.run.subrange(0, i as int).map_values(
                        |p: Pending<Seq<char>>| literal_line(p),
                    ),
                    ..m
                }),
            decreases self.run@.len() - i,
        {
            let l = pending_line(&self.run[i]);
            self.push_line(l);
            assert(m.lines + m.run.subrange(0, i + 1).map_values(|p: Pending<Seq<char>>| literal_line(p))
                =~= (m.lines + m.run.subrange(0, i as int).map_values(
                |p: Pending<Seq<char>>| literal_line(p),
            )).push(l@));
            i = i + 1;
        }
        assert(m.run.subrange(0, m.run.len() as int) =~= m.run);
        proof {
            lemma_select_len(m.run);
        }
        if self.counting {
            self.insertions = self.insertions + adds.len();
            self.deletions = self.deletions + dels.len();
        }
        self.clear_run();
    }
}

impl Renderer {
    fn apply_file_header(&mut self, e: &DiffEntry<String>, paths: &Vec<String>)
        ensures
            final(self)@ == apply_file_header(old(self)@, e@, texts(paths@)),
    {
        if starts_with(e.content.as_str(), "diff --git") {
            if self.named {
                self.push_line(ReportLine::Blank);
            }
            match &e.path {
                Some(p) => {
                    self.push_line(ReportLine::FileSeparator);
                    self.push_line(ReportLine::FileHeader { kind: e.status, path: clone_text(p) });
                    self.named = p.as_str().unicode_len() > 0;
                    self.counting = known_contains(paths, p);
                    self.in_hunk = false;
                    self.old_line = 0;
                    self.new_line = 0;
                },
                None => {},
            }
        } else if starts_with(e.content.as_str(), "index ") {
            let t = trim(e.content.as_str());
            self.push_line(ReportLine::IndexInfo { text: t });
        }
    }

    fn apply_hunk_header(&mut self, e: &DiffEntry<String>)
        requires
            -0x8000_0000 <= old(self).old_line,
            -0x8000_0000 <= old(self).new_line,
        ensures
            final(self)@ == apply_hunk_header(old(self)@, e@),
    {
        match e.hunk {
            Some(h) => {
                let old_last: i64 = if h.old_lines > 0 {
                    h.old_start as i64 + h.old_lines as i64 - 1
                } else {
                    h.old_start as i64
                };
                let new_last: i64 = if h.new_lines > 0 {
                    h.new_start as i64 + h.new_lines as i64 - 1
                } else {
                    h.new_start as i64
                };
                self.push_line(
                    ReportLine::HunkRange {
                        old_first: h.old_start as i64,
                        old_last,
                        new_first: h.new_start as i64,
                        new_last,
                    },
                );
                self.old_line = h.old_start as i64;
                self.new_line = h.new_start as i64;
                self.in_hunk = true;
            },
            None => {
                if starts_with(e.content.as_str(), "@@") {
                    let starts = header_starts_of(e.content.as_str());
                    match starts.0 {
                        Some(v) => {
                            self.old_line = v as i64;
                            self.in_hunk = true;
                        },
                        None => {},
                    }
                    match starts.1 {
                        Some(v) => {
                            self.new_line = v as i64;
                        },
                        None => {},
                    }
                    let l = ReportLine::HunkStart { old_start: self.old_line, new_start: self.new_line };
                    self.push_line(l);
                } else {
                    let t = trim(e.content.as_str());
                    self.push_line(ReportLine::HunkText { text: t });
                }
            },
        }
    }

    fn apply_context(&mut self, e: &DiffEntry<String>)
        requires
            old(self).old_line < i64::MAX,
            old(self).new_line < i64::MAX,
        ensures
            final(self)@ == apply_context(old(self)@, e@),
    {
        let l = if self.in_hunk {
            ReportLine::Context {
                old_line: Some(self.old_line),
                new_line: Some(self.new_line),
                text: clone_text(&e.content),
            }
        } else {
            ReportLine::Context { old_line: None, new_line: None, text: clone_text(&e.content) }
        };
        self.push_line(l);
        if self.in_hunk {
            self.old_line = self.old_line + 1;
            self.new_line = self.new_line + 1;
        }
    }

    fn hold_change(&mut self, e: &DiffEntry<String>)
        requires
            old(self).old_line < i64::MAX,
            old(self).new_line < i64::MAX,
        ensures
            final(self)@ == hold_change(old(self)@, e@),
    {
        let removed = e.origin == '-';
        let n = if removed {
            self.old_line
        } else {
            self.new_line
        };
        let line = if self.in_hunk {
            Some(n)
        } else {
            None
        };
        let p = Pending { removed, text: clone_text(&e.content), line };
        let ghost before = self.run@;
        self.run.push(p);
        assert(self.run@.map_values(|q: Pending<String>| q@) =~= before.map_values(
            |q: Pending<String>| q@,
        ).push(p@));
        if self.in_hunk {
            if removed {
                self.old_line = self.old_line + 1;
            } else {
                self.new_line = self.new_line + 1;
            }
        }
    }

    fn step(&mut self, e: &DiffEntry<String>, paths: &Vec<String>, Ghost(k): Ghost<nat>)
        requires
            bounded(old(self)@, k),
            k < i32::MAX,
        ensures
            final(self)@ == step(old(self)@, e@, texts(paths@)),
            bounded(final(self)@, k + 1),
    {
        if contains(e.content.as_str(), "No newline at end of file") || e.origin == '>' || e.origin
            == '<' {
            self.marked = true;
        } else if e.origin == '+' || e.origin == '-' {
            self.hold_change(e);
        } else {
            self.flush();
            if e.origin == 'F' {
                self.apply_file_header(e, paths);
            } else if e.origin == 'H' {
                self.apply_hunk_header(e);
            } else if e.origin == ' ' {
                self.apply_context(e);
            }
        }
    }
}

/// Renders a streamed diff. `paths` holds the new-side path of each file of
/// the diff; only lines of those files count toward the totals.
pub fn render_diff(paths: &Vec<String>, entries: &Vec<DiffEntry<String>>) -> (r: DiffReport)
    requires
        entries@.len() <= i32::MAX,
    ensures
        line_views(r.lines@) == rendered(entry_views(entries@), texts(paths@)).lines,
        r.summary == summary_of(rendered(entry_views(entries@), texts(paths@)), texts(paths@)),
{
    let ghost ev = entry_views(entries@);
    let ghost known = texts(paths@);
    let mut st = Renderer::new();
    let mut k: usize = 0;
    while k < entries.len()
        invariant
            k <= entries@.len() <= i32::MAX,
            ev == entry_views(entries@),
            known == texts(paths@),
            st@ == render_model(ev.subrange(0, k as int), known),
            bounded(st@, k as nat),
        decreases entries@.len() - k,
    {
        assert(ev.subrange(0, k + 1).drop_last() =~= ev.subrange(0, k as int));
        st.step(&entries[k], paths, Ghost(k as nat));
        k = k + 1;
    }
    assert(ev.subrange(0, entries@.len() as int) =~= ev);
    st.flush();
    let files = distinct_count(paths);
    let summary = if st.lines.len() == 0 {
        None
    } else {
        Some(DiffSummary { files, insertions: st.insertions, deletions: st.deletions })
    };
    DiffReport { lines: st.lines, summary }
}

proof fn lemma_select_len(run: Seq<Pending<Seq<char>>>)
    ensures
        select(run, true).len() + select(run, false).len() == run.len(),
    decreases run.len(),
{
    if run.len() > 0 {
        lemma_select_len(run.drop_last());
    }
}

/// The number of added lines among `lines`.
pub open spec fn count_added(lines: Seq<ReportLine<Seq<char>>>) -> nat
    decreases lines.len(),
{
    if lines.len() == 0 {
        0
    } else {
        count_added(lines.drop_last()) + if lines.last() is Added {
            1nat
        } else {
            0nat
        }
    }
}

/// The number of removed lines among `lines`.
pub open spec fn count_removed(lines: Seq<ReportLine<Seq<char>>>) -> nat
    decreases lines.len(),
{
    if lines.len() == 0 {
        0
    } else {
        count_removed(lines.drop_last()) + if lines.last() is Removed {
            1nat
        } else {
            0nat
        }
    }
}

/// A diff stream as the backend produces it: every file header names one of
/// the diff's files, and no added or removed line comes before the first one.
pub open spec fn well_formed(entries: Seq<DiffEntry<Seq<char>>>, known: Seq<Seq<char>>) -> bool {
    &&& forall|k: int|
        0 <= k < entries.len() && is_file_header(#[trigger] entries[k]) ==> (entries[k].path matches Some(p)
            && known.contains(p))
    &&& forall|k: int|
        0 <= k < entries.len() && is_change(#[trigger] entries[k]) ==> exists|j: int|
            0 <= j < k && is_file_header(#[trigger] entries[j])
}

proof fn lemma_counts_push(lines: Seq<ReportLine<Seq<char>>>, x: ReportLine<Seq<char>>)
    ensures
        count_added(lines.push(x)) == count_added(lines) + if x is Added {
            1nat
        } else {
            0nat
        },
        count_removed(lines.push(x)) == count_removed(lines) + if x is Removed {
            1nat
        } else {
            0nat
        },
{
    assert(lines.push(x).drop_last() =~= lines);
}

proof fn lemma_counts_concat(lines: Seq<ReportLine<Seq<char>>>, run: Seq<Pending<Seq<char>>>)
    ensures
        count_added(lines + run.map_values(|p: Pending<Seq<char>>| literal_line(p))) == count_added(
            lines,
        ) + select(run, false).len(),
        count_removed(lines + run.map_values(|p: Pending<Seq<char>>| literal_line(p)))
            == count_removed(lines) + select(run, true).len(),
    decreases run.len(),
{
    let all = lines + run.map_values(|p: Pending<Seq<char>>| literal_line(p));
    if run.len() == 0 {
        assert(all =~= lines);
    } else {
        let d = run.drop_last();
        lemma_counts_concat(lines, d);
        let part = lines + d.map_values(|p: Pending<Seq<char>>| literal_line(p));
        assert(all.drop_last() =~= part);
        assert(all.last() == literal_line(run.last()));
    }
}

/// What holds of the state after a prefix of a well-formed stream.
pub open spec fn tallies_agree(m: RenderModel, seen_header: bool) -> bool {
    &&& m.counting || m.run.len() == 0
    &&& seen_header ==> m.counting
    &&& m.insertions == count_added(m.lines)
    &&& m.deletions == count_removed(m.lines)
}

proof fn lemma_flush_agrees(m: RenderModel, seen: bool)
    requires
        tallies_agree(m, seen),
    ensures
        tallies_agree(flush(m), seen),
        flush(m).counting == m.counting,
{
    let f = flush(m);
    let dels = select(m.run, true);
    let adds = select(m.run, false);
    lemma_select_len(m.run);
    if is_appended_line(m) {
        let ctx = ReportLine::Context {
            old_line: dels[0].line,
            new_line: adds[0].line,
            text: trimmed(dels[0].text),
        };
        lemma_counts_push(m.lines, ctx);
        lemma_counts_push(m.lines.push(ctx), ReportLine::Added { line: adds[1].line, text: trimmed(adds[1].text) });
    } else if is_dropped_line(m) {
        let ctx = ReportLine::Context {
            old_line: dels[0].line,
            new_line: adds[0].line,
            text: trimmed(dels[0].text),
        };
        lemma_counts_push(m.lines, ctx);
        lemma_counts_push(m.lines.push(ctx), ReportLine::Removed { line: dels[1].line, text: trimmed(dels[1].text) });
    } else {
        lemma_counts_concat(m.lines, m.run);
        if !m.counting {
            assert(select(m.run, true).len() == 0 && select(m.run, false).len() == 0) by {
                lemma_select_len(m.run);
            }
        }
    }
}

proof fn lemma_render_agrees(entries: Seq<DiffEntry<Seq<char>>>, known: Seq<Seq<char>>)
    requires
        well_formed(entries, known),
    ensures
        tallies_agree(
            render_model(entries, known),
            exists|j: int| 0 <= j < entries.len() && is_file_header(#[trigger] entries[j]),
        ),
    decreases entries.len(),
{
    if entries.len() > 0 {
        let d = entries.drop_last();
        let e = entries.last();
        let n = entries.len() - 1;
        assert(well_formed(d, known)) by {
            assert forall|k: int| 0 <= k < d.len() && is_change(#[trigger] d[k]) implies exists|j: int|
                0 <= j < k && is_file_header(#[trigger] d[j]) by {
                assert(entries[k] == d[k]);
                let j = choose|j: int| 0 <= j < k && is_file_header(#[trigger] entries[j]);
                assert(d[j] == entries[j]);
            }
            assert forall|k: int| 0 <= k < d.len() && is_file_header(#[trigger] d[k]) implies (d[k].path matches Some(p)
                && known.contains(p)) by {
                assert(entries[k] == d[k]);
            }
        }
        lemma_render_agrees(d, known);
        let seen_d = exists|j: int| 0 <= j < d.len() && is_file_header(#[trigger] d[j]);
        let seen = exists|j: int| 0 <= j < entries.len() && is_file_header(#[trigger] entries[j]);
        if seen_d {
            let j = choose|j: int| 0 <= j < d.len() && is_file_header(#[trigger] d[j]);
            assert(entries[j] == d[j]);
        }
        if seen && !is_file_header(e) {
            let j = choose|j: int| 0 <= j < entries.len() && is_file_header(#[trigger] entries[j]);
            assert(j != n);
            assert(d[j] == entries[j]);
        }
        let m = render_model(d, known);
        if is_marker(e) {
        } else if e.origin == '+' || e.origin == '-' {
            assert(is_change(entries[n]));
            let j = choose|j: int| 0 <= j < n && is_file_header(#[trigger] entries[j]);
            assert(d[j] == entries[j]);
        } else {
            lemma_flush_agrees(m, seen_d);
            let f = flush(m);
            if e.origin == 'F' {
                if has_prefix(e.content, file_header_prefix()) {
                    assert(is_file_header(entries[n]));
                    let f1 = if f.named {
                        lemma_counts_push(f.lines, ReportLine::Blank);
                        f.lines.push(ReportLine::Blank)
                    } else {
                        f.lines
                    };
                    match e.path {
                        Some(p) => {
                            lemma_counts_push(f1, ReportLine::FileSeparator);
                            lemma_counts_push(
                                f1.push(ReportLine::FileSeparator),
                                ReportLine::FileHeader { kind: e.status, path: p },
                            );
                        },
                        None => {},
                    }
                } else if has_prefix(e.content, index_prefix()) {
                    lemma_counts_push(f.lines, ReportLine::IndexInfo { text: trimmed(e.content) });
                }
            } else if e.origin == 'H' {
                let r = apply_hunk_header(f, e);
                assert(r.lines.drop_last() =~= f.lines);
                lemma_counts_push(f.lines, r.lines.last());
            } else if e.origin == ' ' {
                let r = apply_context(f, e);
                assert(r.lines.drop_last() =~= f.lines);
                lemma_counts_push(f.lines, r.lines.last());
            }
        }
    }
}

/// The totals of a rendered diff are the counts of its rendered lines: for a
/// well-formed stream, the added and removed lines that the report shows are
/// exactly as many as its summary's insertions and deletions.
pub proof fn lemma_summary_counts_lines(entries: Seq<DiffEntry<Seq<char>>>, known: Seq<Seq<char>>)
    requires
        well_formed(entries, known),
    ensures
        rendered(entries, known).insertions == count_added(rendered(entries, known).lines),
        rendered(entries, known).deletions == count_removed(rendered(entries, known).lines),
{
    lemma_render_agrees(entries, known);
    let seen = exists|j: int| 0 <= j < entries.len() && is_file_header(#[trigger] entries[j]);
    lemma_flush_agrees(render_model(entries, known), seen);
}

/// The totals line of a report: files changed, then insertions and deletions
/// where there are any.
pub open spec fn summary_text(s: DiffSummary) -> Seq<char> {
    decimal(s.files as nat) + " files changed"@ + (if s.insertions > 0 {
        ", "@ + decimal(s.insertions as nat) + " insertions(+)"@
    } else {
        Seq::empty()
    }) + (if s.deletions > 0 {
        ", "@ + decimal(s.deletions as nat) + " deletions(-)"@
    } else {
        Seq::empty()
    })
}

/// The totals line of a report.
pub fn diff_summary_text(s: &DiffSummary) -> (r: String)
    ensures
        r@ == summary_text(*s),
{
    let mut out = decimal_text(s.files);
    out.append(" files changed");
    if s.insertions > 0 {
        out.append(", ");
        out.append(decimal_text(s.insertions).as_str());
        out.append(" insertions(+)");
    }
    if s.deletions > 0 {
        out.append(", ");
        out.append(decimal_text(s.deletions).as_str());
        out.append(" deletions(-)");
    }
    assert(out@ =~= summary_text(*s));
    out
}

} // verus!
