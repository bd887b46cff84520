//! A checkpoint keeper layered on a version-control backend.
//!
//! Checkpoints of a working directory are commits on a reserved branch. The
//! library holds the logic of it, each part with its contract:
//! - `isolation`: the protocol that moves every operation onto the reserved
//!   branch, bootstraps that branch, and restores the user's branch after;
//! - `resolver`: resolution of full and abbreviated commit hashes;
//! - `render`: the diff report, with its line numbers, totals and the folding
//!   of end-of-file newline changes;
//! - `lifecycle`: what `create`, `list`, `restore` and `show` decide and print;
//! - `stats`, `commands`: diff statistics, and the commands' arguments.
//!
//! The backend calls themselves are made by the caller, which hands the
//! library plain values.

pub mod commands;
pub mod diff_types;
pub mod error;
pub mod hunk_header;
pub mod isolation;
pub mod lifecycle;
pub mod render;
pub mod resolver;
pub mod restore;
pub mod stats;
pub mod text;

pub use error::{CcResult, CheckpointError};
