//! The steps of `restore` once its target is resolved: the working tree is
//! checked for uncommitted changes before anything is changed, the checkpoints
//! that the reset discards are counted, and only then is the branch reset.

use vstd::prelude::*;
use crate::error::{BackendError, CheckpointError};
use crate::lifecycle::{RestorePlan, plan_restore};

verus! {

/// A phase of `restore`.
#[derive(Debug, Clone, Copy, PartialEq, Eq, Structural)]
pub enum RestorePhase {
    /// The working tree is being checked for uncommitted changes.
    Inspecting,
    /// The checkpoints newer than the target are being counted.
    Counting,
    /// The branch and the working tree are being reset to the target.
    Resetting,
    Done,
}

/// What came of the last step.
#[derive(Debug)]
pub enum RestoreEvent {
    /// Whether the working tree has uncommitted changes.
    TreeDirty(bool),
    /// How many checkpoints are newer than the target.
    Newer(usize),
    /// The outcome of the reset.
    ResetDone(Result<(), BackendError<String>>),
}

/// What the caller is to do next.
#[derive(Debug)]
pub enum RestoreAction {
    CheckTree,
    CountNewer,
    /// Reset the branch, index and working tree to the target, warning first
    /// where the plan says so.
    Reset(RestorePlan),
    /// Stop with this failure; nothing has been changed unless the reset failed.
    Fail(CheckpointError),
    /// The restore is complete.
    Finish,
}

/// The first step: check the working tree.
pub fn restore_start() -> (r: (RestorePhase, RestoreAction))
    ensures
        r.0 == RestorePhase::Inspecting,
        r.1 is CheckTree,
{
    (RestorePhase::Inspecting, RestoreAction::CheckTree)
}

/// The next phase and action of `restore` after `event` in phase `p`.
pub fn restore_next(p: RestorePhase, event: RestoreEvent) -> (r: (RestorePhase, RestoreAction))
    ensures
        (p == RestorePhase::Inspecting && (event matches RestoreEvent::TreeDirty(true))) ==> (r.0
            == RestorePhase::Done && (r.1 matches RestoreAction::Fail(
            CheckpointError::UncommittedChanges,
        ))),
        (p == RestorePhase::Inspecting && (event matches RestoreEvent::TreeDirty(false))) ==> (r.0
            == RestorePhase::Counting && r.1 is CountNewer),
        p == RestorePhase::Counting && event is Newer ==> (r.0 == RestorePhase::Resetting && r.1
            == RestoreAction::Reset(
            RestorePlan { discarded: event->Newer_0, warn: event->Newer_0 > 0 },
        )),
        (p == RestorePhase::Resetting && (event matches RestoreEvent::ResetDone(Ok(())))) ==> (r.0
            == RestorePhase::Done && r.1 is Finish),
        (p == RestorePhase::Resetting && (event matches RestoreEvent::ResetDone(Err(_)))) ==> (r.0
            == RestorePhase::Done && (r.1 matches RestoreAction::Fail(
            CheckpointError::GitOperationFailed(_),
        ))),
        r.1 is Reset ==> p == RestorePhase::Counting,
        !(p == RestorePhase::Inspecting && event is TreeDirty) && !(p == RestorePhase::Counting
            && event is Newer) && !(p == RestorePhase::Resetting && event is ResetDone) ==> (r.0
            == RestorePhase::Done && r.1 is Fail),
{
    match (p, event) {
        (RestorePhase::Inspecting, RestoreEvent::TreeDirty(dirty)) => match plan_restore(dirty, 0) {
            Err(e) => (RestorePhase::Done, RestoreAction::Fail(e)),
            Ok(_) => (RestorePhase::Counting, RestoreAction::CountNewer),
        },
        (RestorePhase::Counting, RestoreEvent::Newer(n)) => match plan_restore(false, n) {
            Ok(plan) => (RestorePhase::Resetting, RestoreAction::Reset(plan)),
            Err(e) => (RestorePhase::Done, RestoreAction::Fail(e)),
        },
        (RestorePhase::Resetting, RestoreEvent::ResetDone(r)) => match r {
            Ok(()) => (RestorePhase::Done, RestoreAction::Finish),
            Err(e) => (RestorePhase::Done, RestoreAction::Fail(CheckpointError::GitOperationFailed(e))),
        },
        _ => (
            RestorePhase::Done,
            RestoreAction::Fail(
                CheckpointError::InvalidArgument(String::from_str("unexpected step of restore")),
            ),
        ),
    }
}

} // verus!
