//! The failures that the library reports.

use vstd::prelude::*;

verus! {

/// How the backend classified a failure that it reported.
#[derive(Debug, Clone, Copy, PartialEq, Eq, Structural)]
pub enum BackendErrorKind {
    /// The object or reference asked for does not exist.
    NotFound,
    /// The current branch has no commit yet.
    UnbornBranch,
    /// Any other failure.
    Other,
}

/// A failure reported by the version-control backend, as plain values.
#[derive(Debug, Clone)]
pub struct BackendError<T> {
    pub kind: BackendErrorKind,
    pub message: T,
}

impl View for BackendError<String> {
    type V = BackendError<Seq<char>>;

    open spec fn view(&self) -> BackendError<Seq<char>> {
        BackendError { kind: self.kind, message: self.message@ }
    }
}

/// One commit offered to the user when a short hash matches several.
#[derive(Debug, Clone)]
pub struct HashCandidate {
    /// The first characters of the commit's hash.
    pub short_hash: String,
    /// The first line of the commit's message.
    pub summary: String,
}

/// The failures of checkpoint operations.
#[derive(Debug, Clone)]
pub enum CheckpointError {
    RepositoryNotFound,
    GitOperationFailed(BackendError<String>),
    BranchNotFound(String),
    CheckpointNotFound(String),
    InvalidHash(String),
    /// A short hash that matches more than one commit: the first matches, and
    /// how many more there are.
    AmbiguousHash { query: String, candidates: Vec<HashCandidate>, remaining: usize },
    InvalidDateFormat(String),
    UncommittedChanges,
    NoChangesToCommit,
    PermissionDenied(String),
    UserCancelled,
    InvalidArgument(String),
    IoError(String),
    DialoguerError(String),
}

pub type CcResult<T> = Result<T, CheckpointError>;

} // verus!
