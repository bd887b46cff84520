//! The arguments of the user's commands, their checks, and the interface that
//! each command implements.

use vstd::prelude::*;
use crate::error::{CcResult, CheckpointError};

verus! {

/// A command of the checkpoint tool.
pub trait Command {
    type Args;
    type Output;

    /// Runs the command.
    fn execute(&self, args: Self::Args) -> CcResult<Self::Output>;

    /// Checks the command's arguments; by default every argument is accepted.
    fn validate_args(&self, _args: &Self::Args) -> CcResult<()> {
        Ok(())
    }
}

/// Arguments of `init` (none).
#[derive(Debug, Clone)]
pub struct InitArgs;

/// Arguments of `create`.
#[derive(Debug, Clone)]
pub struct CreateArgs {
    pub message: Option<String>,
}

/// Arguments of `list`.
#[derive(Debug, Clone)]
pub struct ListArgs {
    pub number: usize,
}

/// Arguments of `restore`.
#[derive(Debug, Clone)]
pub struct RestoreArgs {
    pub hash: String,
}

/// Arguments of `show`.
#[derive(Debug, Clone)]
pub struct ShowArgs {
    pub hash: String,
    pub diff: bool,
}

/// Arguments of `diff`.
#[derive(Debug, Clone)]
pub struct DiffArgs {
    pub hash_a: String,
    pub hash_b: Option<String>,
}

/// Arguments of `prune`.
#[derive(Debug, Clone)]
pub struct PruneArgs {
    pub keep: Option<usize>,
    pub before: Option<String>,
}

impl ListArgs {
    /// The number of checkpoints to list must be positive.
    pub fn validate(&self) -> (r: CcResult<()>)
        ensures
            r is Ok <==> self.number > 0,
            r is Err ==> r matches Err(CheckpointError::InvalidArgument(_)),
    {
        if self.number == 0 {
            return Err(
                CheckpointError::InvalidArgument(
                    String::from_str("the number of checkpoints to list must be greater than 0"),
                ),
            );
        }
        Ok(())
    }
}

impl RestoreArgs {
    /// The hash to restore must not be empty.
    pub fn validate(&self) -> (r: CcResult<()>)
        ensures
            r is Ok <==> self.hash@.len() > 0,
            r is Err ==> r matches Err(CheckpointError::InvalidArgument(_)),
    {
        if self.hash.as_str().is_empty() {
            return Err(
                CheckpointError::InvalidArgument(String::from_str("the checkpoint hash must not be empty")),
            );
        }
        Ok(())
    }
}

impl ShowArgs {
    /// The hash to show must not be empty.
    pub fn validate(&self) -> (r: CcResult<()>)
        ensures
            r is Ok <==> self.hash@.len() > 0,
            r is Err ==> r matches Err(CheckpointError::InvalidArgument(_)),
    {
        if self.hash.as_str().is_empty() {
            return Err(
                CheckpointError::InvalidArgument(String::from_str("the checkpoint hash must not be empty")),
            );
        }
        Ok(())
    }
}

impl DiffArgs {
    /// The first hash to compare must not be empty.
    pub fn validate(&self) -> (r: CcResult<()>)
        ensures
            r is Ok <==> self.hash_a@.len() > 0,
            r is Err ==> r matches Err(CheckpointError::InvalidArgument(_)),
    {
        if self.hash_a.as_str().is_empty() {
            return Err(
                CheckpointError::InvalidArgument(
                    String::from_str("the first checkpoint hash must not be empty"),
                ),
            );
        }
        Ok(())
    }
}

} // verus!
