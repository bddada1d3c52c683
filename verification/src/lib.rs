//! Classifies and reconciles local version-control branches against their
//! remote counterparts: per branch, decides whether it is synchronized,
//! fast-forwardable, diverged, orphaned (remote deleted), local-only, or
//! dirty, and which branches a sync run may delete because their changes
//! have landed in the default branch.
//!
//! The crate holds the decision logic only. Running the version-control
//! tool, the interactive picker and the terminal output live outside it;
//! they hand raw command output in as plain values and carry the decided
//! actions out.
pub mod git;
pub mod laws;
pub mod status;
pub mod text;

pub use git::{BranchObservation, GitManager, SyncObservations, SyncOutcome};
pub use status::{BranchInfo, BranchStatus, ClassifyAction, GitError};
