//! The branch-isolation protocol: every checkpoint operation runs on the
//! reserved checkpoint branch, which is created on first use, and the branch
//! that was current before is restored afterwards.
//!
//! The protocol is a machine from phase and event to next phase and action.
//! The caller performs each action against the backend and hands back what
//! came of it as the next event.

use vstd::prelude::*;
use crate::error::{BackendError, BackendErrorKind};
use crate::text::{has_prefix, starts_with};

verus! {

/// The name of the reserved checkpoint branch.
pub const CCG_BRANCH_NAME: &'static str = "ccg";

/// The message of the root commit made when a repository has none.
pub const DEFAULT_COMMIT_MESSAGE: &'static str = "Initial commit - Checkpoint Guardian init";

pub open spec fn reserved_branch() -> Seq<char> {
    "ccg"@
}

pub open spec fn heads_prefix() -> Seq<char> {
    "refs/heads/"@
}

/// The full reference name of a local branch.
pub open spec fn branch_ref(name: Seq<char>) -> Seq<char> {
    heads_prefix() + name
}

/// What reading the head reference gave.
#[derive(Debug, Clone)]
pub enum HeadState<T> {
    /// The head reference, by its full name.
    Named(T),
    /// A head reference without a name.
    Nameless,
    /// The current branch has no commit yet.
    Unborn,
    /// Reading it failed.
    Failed(BackendError<T>),
}

/// A phase of the protocol.
#[derive(Debug, Clone)]
pub enum Phase<T> {
    /// The head is being read; `retried` once the branch has been bootstrapped.
    Reading { retried: bool },
    /// The reserved branch is being looked up before switching to it.
    Looking { original: T, retried: bool },
    /// The head is being pointed at the reserved branch.
    Switching { original: T, retried: bool },
    /// Bootstrap: the reserved branch is being looked up.
    Seeking,
    /// Bootstrap: whether the head has a commit is being checked.
    Probing,
    /// Bootstrap: an empty root commit is being made.
    Rooting,
    /// Bootstrap: the reserved branch is looked up again after the root commit.
    Reseeking,
    /// Bootstrap: the reserved branch is being created at the head commit.
    Branching,
    /// The operation is running on the reserved branch.
    Working { original: T },
    /// The original branch is being restored; `failed` tells how the operation ended.
    Leaving { original: T, failed: bool },
    /// The protocol is over.
    Done,
}

/// What came of the last action.
#[derive(Debug)]
pub enum Event<T> {
    /// The head, after `ReadHead`.
    Head(HeadState<T>),
    /// The lookup of the reserved branch: found, or the backend's failure.
    Found(Result<(), BackendError<T>>),
    /// Whether the head has a commit, after `CheckHeadCommit`.
    HasCommit(bool),
    /// The outcome of a change to the repository.
    Completed(Result<(), BackendError<T>>),
    /// The operation ended, failed or not.
    Operation { failed: bool },
}

/// What the caller is to do next.
#[derive(Debug, Clone)]
pub enum Action<T> {
    ReadHead,
    FindReserved,
    /// Point the head at the reference of this full name.
    PointHead(T),
    CheckHeadCommit,
    /// Make an empty root commit on the head.
    CreateRootCommit,
    /// Create the reserved branch at the head commit.
    CreateReservedAtHead,
    RunOperation,
    /// Stop with this failure.
    Fail(BackendError<T>),
    /// Stop with the operation's own result; `warn_restore` where the original
    /// branch could not be restored after a successful operation.
    Complete { warn_restore: bool },
}

impl View for HeadState<String> {
    type V = HeadState<Seq<char>>;

    open spec fn view(&self) -> HeadState<Seq<char>> {
        match self {
            HeadState::Named(n) => HeadState::Named(n@),
            HeadState::Nameless => HeadState::Nameless,
            HeadState::Unborn => HeadState::Unborn,
            HeadState::Failed(e) => HeadState::Failed(e@),
        }
    }
}

impl View for Phase<String> {
    type V = Phase<Seq<char>>;

    open spec fn view(&self) -> Phase<Seq<char>> {
        match self {
            Phase::Reading { retried } => Phase::Reading { retried: *retried },
            Phase::Looking { original, retried } => Phase::Looking {
                original: original@,
                retried: *retried,
            },
            Phase::Switching { original, retried } => Phase::Switching {
                original: original@,
                retried: *retried,
            },
            Phase::Seeking => Phase::Seeking,
            Phase::Probing => Phase::Probing,
            Phase::Rooting => Phase::Rooting,
            Phase::Reseeking => Phase::Reseeking,
            Phase::Branching => Phase::Branching,
            Phase::Working { original } => Phase::Working { original: original@ },
            Phase::Leaving { original, failed } => Phase::Leaving {
                original: original@,
                failed: *failed,
            },
            Phase::Done => Phase::Done,
        }
    }
}

pub open spec fn result_view(r: Result<(), BackendError<String>>) -> Result<(), BackendError<Seq<char>>> {
    match r {
        Ok(()) => Ok(()),
        Err(e) => Err(e@),
    }
}

impl View for Event<String> {
    type V = Event<Seq<char>>;

    open spec fn view(&self) -> Event<Seq<char>> {
        match self {
            Event::Head(h) => Event::Head(h@),
            Event::Found(r) => Event::Found(result_view(*r)),
            Event::HasCommit(b) => Event::HasCommit(*b),
            Event::Completed(r) => Event::Completed(result_view(*r)),
            Event::Operation { failed } => Event::Operation { failed: *failed },
        }
    }
}

impl View for Action<String> {
    type V = Action<Seq<char>>;

    open spec fn view(&self) -> Action<Seq<char>> {
        match self {
            Action::ReadHead => Action::ReadHead,
            Action::FindReserved => Action::FindReserved,
            Action::PointHead(r) => Action::PointHead(r@),
            Action::CheckHeadCommit => Action::CheckHeadCommit,
            Action::CreateRootCommit => Action::CreateRootCommit,
            Action::CreateReservedAtHead => Action::CreateReservedAtHead,
            Action::RunOperation => Action::RunOperation,
            Action::Fail(e) => Action::Fail(e@),
            Action::Complete { warn_restore } => Action::Complete { warn_restore: *warn_restore },
        }
    }
}

pub open spec fn nameless_message() -> Seq<char> {
    "HEAD has no name"@
}

pub open spec fn unexpected_message() -> Seq<char> {
    "unexpected event for the current phase"@
}

pub open spec fn unborn_default_branch() -> Seq<char> {
    "main"@
}

/// The current branch's name as the head gives it: the full name less
/// `refs/heads/`; `main` for a branch with no commit yet.
pub open spec fn branch_of_head(h: HeadState<Seq<char>>) -> Result<Seq<char>, BackendError<Seq<char>>> {
    match h {
        HeadState::Named(n) => if has_prefix(n, heads_prefix()) {
            Ok(n.subrange(heads_prefix().len() as int, n.len() as int))
        } else {
            Ok(n)
        },
        HeadState::Nameless => Err(
            BackendError { kind: BackendErrorKind::Other, message: nameless_message() },
        ),
        HeadState::Unborn => Ok(unborn_default_branch()),
        HeadState::Failed(e) => Err(e),
    }
}

/// A failure on entering that bootstrapping the reserved branch may mend.
pub open spec fn mends_by_bootstrap(kind: BackendErrorKind) -> bool {
    kind == BackendErrorKind::NotFound || kind == BackendErrorKind::UnbornBranch
}

pub open spec fn unexpected() -> (Phase<Seq<char>>, Action<Seq<char>>) {
    (
        Phase::Done,
        Action::Fail(BackendError { kind: BackendErrorKind::Other, message: unexpected_message() }),
    )
}

/// A failure on entering: bootstrap once, else stop with it.
pub open spec fn on_enter_failure(e: BackendError<Seq<char>>, retried: bool) -> (Phase<Seq<char>>, Action<Seq<char>>) {
    if mends_by_bootstrap(e.kind) && !retried {
        (Phase::Seeking, Action::FindReserved)
    } else {
        (Phase::Done, Action::Fail(e))
    }
}

/// The first phase and action of the protocol.
pub open spec fn start_spec() -> (Phase<Seq<char>>, Action<Seq<char>>) {
    (Phase::Reading { retried: false }, Action::ReadHead)
}

/// The protocol: the next phase and action after `event` in phase `p`.
pub open spec fn transition(p: Phase<Seq<char>>, event: Event<Seq<char>>) -> (Phase<Seq<char>>, Action<Seq<char>>) {
    match (p, event) {
        (Phase::Reading { retried }, Event::Head(h)) => match branch_of_head(h) {
            Err(e) => on_enter_failure(e, retried),
            Ok(name) => if name == reserved_branch() {
                (Phase::Working { original: name }, Action::RunOperation)
            } else {
                (Phase::Looking { original: name, retried }, Action::FindReserved)
            },
        },
        (Phase::Looking { original, retried }, Event::Found(r)) => match r {
            Ok(()) => (
                Phase::Switching { original, retried },
                Action::PointHead(branch_ref(reserved_branch())),
            ),
            Err(e) => on_enter_failure(e, retried),
        },
        (Phase::Switching { original, retried }, Event::Completed(r)) => match r {
            Ok(()) => (Phase::Working { original }, Action::RunOperation),
            Err(e) => on_enter_failure(e, retried),
        },
        (Phase::Seeking, Event::Found(r)) => match r {
            Ok(()) => (Phase::Reading { retried: true }, Action::ReadHead),
            Err(_) => (Phase::Probing, Action::CheckHeadCommit),
        },
        (Phase::Probing, Event::HasCommit(b)) => if b {
            (Phase::Branching, Action::CreateReservedAtHead)
        } else {
            (Phase::Rooting, Action::CreateRootCommit)
        },
        (Phase::Rooting, Event::Completed(r)) => match r {
            Ok(()) => (Phase::Reseeking, Action::FindReserved),
            Err(e) => (Phase::Done, Action::Fail(e)),
        },
        (Phase::Reseeking, Event::Found(r)) => match r {
            Ok(()) => (Phase::Reading { retried: true }, Action::ReadHead),
            Err(_) => (Phase::Branching, Action::CreateReservedAtHead),
        },
        (Phase::Branching, Event::Completed(r)) => match r {
            Ok(()) => (Phase::Reading { retried: true }, Action::ReadHead),
            Err(e) => (Phase::Done, Action::Fail(e)),
        },
        (Phase::Working { original }, Event::Operation { failed }) => if original
            == reserved_branch() {
            (Phase::Done, Action::Complete { warn_restore: false })
        } else {
            (Phase::Leaving { original, failed }, Action::PointHead(branch_ref(original)))
        },
        (Phase::Leaving { original, failed }, Event::Completed(r)) => (
            Phase::Done,
            Action::Complete { warn_restore: r is Err && !failed },
        ),
        _ => unexpected(),
    }
}

fn copy_text(s: &String) -> (r: String)
    ensures
        r@ == s@,
{
    String::from_str(s.as_str())
}

fn copy_error(e: &BackendError<String>) -> (r: BackendError<String>)
    ensures
        r@ == e@,
{
    BackendError { kind: e.kind, message: copy_text(&e.message) }
}

/// The full reference name of the local branch `name`.
pub fn branch_ref_of(name: &str) -> (r: String)
    ensures
        r@ == branch_ref(name@),
{
    String::from_str("refs/heads/").concat(name)
}

/// The current branch's name, as the head gives it.
pub fn current_branch_name(h: &HeadState<String>) -> (r: Result<String, BackendError<String>>)
    ensures
        match r {
            Ok(n) => branch_of_head(h@) == Ok::<Seq<char>, BackendError<Seq<char>>>(n@),
            Err(e) => branch_of_head(h@) == Err::<Seq<char>, BackendError<Seq<char>>>(e@),
        },
{
    match h {
        HeadState::Named(n) => {
            if starts_with(n.as_str(), "refs/heads/") {
                let len = n.as_str().unicode_len();
                let k = "refs/heads/".unicode_len();
                Ok(String::from_str(n.as_str().substring_char(k, len)))
            } else {
                Ok(copy_text(n))
            }
        },
        HeadState::Nameless => Err(
            BackendError { kind: BackendErrorKind::Other, message: String::from_str("HEAD has no name") },
        ),
        HeadState::Unborn => Ok(String::from_str("main")),
        HeadState::Failed(e) => Err(copy_error(e)),
    }
}

fn is_reserved(name: &String) -> (r: bool)
    ensures
        r == (name@ == reserved_branch()),
{
    let reserved = String::from_str(CCG_BRANCH_NAME);
    proof {
        reveal_strlit("ccg");
    }
    *name == reserved
}

fn unexpected_exec() -> (r: (Phase<String>, Action<String>))
    ensures
        (r.0@, r.1@) == unexpected(),
{
    (
        Phase::Done,
        Action::Fail(
            BackendError {
                kind: BackendErrorKind::Other,
                message: String::from_str("unexpected event for the current phase"),
            },
        ),
    )
}

fn on_enter_failure_exec(e: &BackendError<String>, retried: bool) -> (r: (Phase<String>, Action<String>))
    ensures
        (r.0@, r.1@) == on_enter_failure(e@, retried),
{
    if (e.kind == BackendErrorKind::NotFound || e.kind == BackendErrorKind::UnbornBranch) && !retried {
        (Phase::Seeking, Action::FindReserved)
    } else {
        (Phase::Done, Action::Fail(copy_error(e)))
    }
}

/// The first phase and action of the protocol: read the head.
pub fn start() -> (r: (Phase<String>, Action<String>))
    ensures
        (r.0@, r.1@) == start_spec(),
{
    (Phase::Reading { retried: false }, Action::ReadHead)
}

/// The next phase and action after `event` in phase `p`.
pub fn next(p: &Phase<String>, event: &Event<String>) -> (r: (Phase<String>, Action<String>))
    ensures
        (r.0@, r.1@) == transition(p@, event@),
{
    match (p, event) {
        (Phase::Reading { retried }, Event::Head(h)) => match current_branch_name(h) {
            Err(e) => on_enter_failure_exec(&e, *retried),
            Ok(name) => if is_reserved(&name) {
                (Phase::Working { original: name }, Action::RunOperation)
            } else {
                (Phase::Looking { original: name, retried: *retried }, Action::FindReserved)
            },
        },
        (Phase::Looking { original, retried }, Event::Found(r)) => match r {
            Ok(()) => (
                Phase::Switching { original: copy_text(original), retried: *retried },
                Action::PointHead(branch_ref_of(CCG_BRANCH_NAME)),
            ),
            Err(e) => on_enter_failure_exec(e, *retried),
        },
        (Phase::Switching { original, retried }, Event::Completed(r)) => match r {
            Ok(()) => (Phase::Working { original: copy_text(original) }, Action::RunOperation),
            Err(e) => on_enter_failure_exec(e, *retried),
        },
        (Phase::Seeking, Event::Found(r)) => match r {
            Ok(()) => (Phase::Reading { retried: true }, Action::ReadHead),
            Err(_) => (Phase::Probing, Action::CheckHeadCommit),
        },
        (Phase::Probing, Event::HasCommit(b)) => if *b {
            (Phase::Branching, Action::CreateReservedAtHead)
        } else {
            (Phase::Rooting, Action::CreateRootCommit)
        },
        (Phase::Rooting, Event::Completed(r)) => match r {
            Ok(()) => (Phase::Reseeking, Action::FindReserved),
            Err(e) => (Phase::Done, Action::Fail(copy_error(e))),
        },
        (Phase::Reseeking, Event::Found(r)) => match r {
            Ok(()) => (Phase::Reading { retried: true }, Action::ReadHead),
            Err(_) => (Phase::Branching, Action::CreateReservedAtHead),
        },
        (Phase::Branching, Event::Completed(r)) => match r {
            Ok(()) => (Phase::Reading { retried: true }, Action::ReadHead),
            Err(e) => (Phase::Done, Action::Fail(copy_error(e))),
        },
        (Phase::Working { original }, Event::Operation { failed }) => if is_reserved(original) {
            (Phase::Done, Action::Complete { warn_restore: false })
        } else {
            (
                Phase::Leaving { original: copy_text(original), failed: *failed },
                Action::PointHead(branch_ref_of(original.as_str())),
            )
        },
        (Phase::Leaving { original, failed }, Event::Completed(r)) => (
            Phase::Done,
            Action::Complete { warn_restore: r.is_err() && !*failed },
        ),
        _ => unexpected_exec(),
    }
}

/// The operation only ever runs with the head on the reserved branch: the
/// protocol asks for it only once the head was found on that branch, or once
/// it has been pointed there.
pub proof fn lemma_runs_only_on_reserved(p: Phase<Seq<char>>, event: Event<Seq<char>>)
    ensures
        transition(p, event).1 is RunOperation ==> {
            ||| (p is Reading && (event matches Event::Head(h) && branch_of_head(h) == Ok::<
                Seq<char>,
                BackendError<Seq<char>>,
            >(reserved_branch())))
            ||| (p is Switching && event matches Event::Completed(Ok(())))
        },
        !(p is Working) ==> (transition(p, event).1 matches Action::PointHead(r) ==> r
            == branch_ref(reserved_branch())),
{
}

/// After the operation the branch that was current before is restored, on
/// every outcome: the head is pointed back at it unless it is the reserved
/// branch itself, and the protocol then completes with the operation's own
/// result, a failed restore being only a warning after a successful operation.
pub proof fn lemma_leave_restores_original(
    original: Seq<char>,
    failed: bool,
    restored: Result<(), BackendError<Seq<char>>>,
)
    ensures
        original != reserved_branch() ==> {
            &&& transition(Phase::Working { original }, Event::Operation { failed }) == (
                Phase::Leaving { original, failed },
                Action::PointHead(branch_ref(original)),
            )
            &&& transition(Phase::Leaving { original, failed }, Event::Completed(restored)) == (
                Phase::<Seq<char>>::Done,
                Action::<Seq<char>>::Complete { warn_restore: restored is Err && !failed },
            )
        },
        original == reserved_branch() ==> transition(
            Phase::Working { original },
            Event::Operation { failed },
        ) == (Phase::<Seq<char>>::Done, Action::<Seq<char>>::Complete { warn_restore: false }),
{
}

/// The reserved branch is bootstrapped at most once per operation: once
/// retried, a failure on entering ends the protocol.
pub proof fn lemma_bootstrap_once(p: Phase<Seq<char>>, event: Event<Seq<char>>)
    requires
        p matches Phase::Reading { retried: true } || p matches Phase::Looking { retried: true, .. }
            || p matches Phase::Switching { retried: true, .. },
    ensures
        !(transition(p, event).0 is Seeking),
{
}

/// Whether the head is detached: a head without a branch name (or named
/// `HEAD` itself); a branch with no commit yet is not detached.
pub open spec fn head_detached(h: HeadState<Seq<char>>) -> Result<bool, BackendError<Seq<char>>> {
    match h {
        HeadState::Named(n) => Ok(n == "HEAD"@),
        HeadState::Nameless => Ok(true),
        HeadState::Unborn => Ok(false),
        HeadState::Failed(e) => Err(e),
    }
}

/// Whether the head is detached.
pub fn is_head_detached(h: &HeadState<String>) -> (r: Result<bool, BackendError<String>>)
    ensures
        match r {
            Ok(b) => head_detached(h@) == Ok::<bool, BackendError<Seq<char>>>(b),
            Err(e) => head_detached(h@) == Err::<bool, BackendError<Seq<char>>>(e@),
        },
{
    match h {
        HeadState::Named(n) => {
            let head = String::from_str("HEAD");
            Ok(*n == head)
        },
        HeadState::Nameless => Ok(true),
        HeadState::Unborn => Ok(false),
        HeadState::Failed(e) => Err(copy_error(e)),
    }
}

/// The branch restored after the operation is the one the head was on when
/// the protocol last read it: a phase that carries an original branch gets it
/// from the head just read, or from the phase before it.
pub proof fn lemma_original_is_branch_read(p: Phase<Seq<char>>, event: Event<Seq<char>>, o: Seq<char>)
    ensures
        transition(p, event).0 == (Phase::Working { original: o }) ==> {
            ||| (p is Reading && (event matches Event::Head(h) && branch_of_head(h) == Ok::<
                Seq<char>,
                BackendError<Seq<char>>,
            >(o)))
            ||| (p matches Phase::Switching { original, .. } && original == o)
        },
        transition(p, event).0 matches Phase::Switching { original, .. } && original == o
            ==> (p matches Phase::Looking { original: lo, .. } && lo == o),
        transition(p, event).0 matches Phase::Looking { original, .. } && original == o ==> (
        p is Reading && (event matches Event::Head(h) && branch_of_head(h) == Ok::<
            Seq<char>,
            BackendError<Seq<char>>,
        >(o))),
        transition(p, event).0 matches Phase::Leaving { original, .. } && original == o
            ==> (p matches Phase::Working { original: wo } && wo == o),
{
}

} // verus!
