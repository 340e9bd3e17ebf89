//! Sync outcomes and errors.

use vstd::prelude::*;

use crate::text::concat;
use crate::types::Forge;

verus! {

/// Errors of a sync.
#[derive(Debug, Clone)]
pub enum SyncError {
    /// A forge operation failed (its message).
    ForgeError(String),
    /// A storage operation failed (its message).
    StorageError(String),
    /// No forge adapter available for the requested forge.
    NoAdapterForForge { forge: Forge },
    /// Sync was aborted due to errors.
    Aborted { message: String },
    /// Dry run completed (not an actual error).
    DryRun,
}

impl SyncError {
    /// The human-readable description of the error.
    pub fn message(&self) -> (s: String)
        ensures
            s@ == match self {
                SyncError::ForgeError(m) => "Forge operation failed: "@ + m@,
                SyncError::StorageError(m) => "Storage operation failed: "@ + m@,
                SyncError::NoAdapterForForge { forge } => "No adapter available for forge: "@
                    + forge.name(),
                SyncError::Aborted { message } => "Sync aborted: "@ + message@,
                SyncError::DryRun => "Dry run completed - no changes applied"@,
            },
    {
        match self {
            SyncError::ForgeError(m) => concat("Forge operation failed: ", m.as_str()),
            SyncError::StorageError(m) => concat("Storage operation failed: ", m.as_str()),
            SyncError::NoAdapterForForge { forge } => concat(
                "No adapter available for forge: ",
                forge.as_str(),
            ),
            SyncError::Aborted { message } => concat("Sync aborted: ", message.as_str()),
            SyncError::DryRun => "Dry run completed - no changes applied".to_owned(),
        }
    }
}

/// Outcome of a sync action.
#[derive(Debug, Clone)]
pub enum SyncOutcome {
    Created,
    Updated,
    Deleted,
    NoOp,
    /// Skipped (dry run).
    Skipped,
    Failed { error: String },
}

impl SyncOutcome {
    /// Every outcome but a failure is a success.
    pub fn is_success(&self) -> (b: bool)
        ensures
            b == !(self is Failed),
    {
        match self {
            SyncOutcome::Failed { .. } => false,
            _ => true,
        }
    }

    /// Whether the action failed.
    pub fn is_failure(&self) -> (b: bool)
        ensures
            b == (self is Failed),
    {
        match self {
            SyncOutcome::Failed { .. } => true,
            _ => false,
        }
    }
}

/// The result of one sync action.
#[derive(Debug, Clone)]
pub struct SyncResult {
    /// The repository this result is for.
    pub repo_name: String,
    /// The forge the action was applied to.
    pub forge: Forge,
    /// The outcome of the action.
    pub outcome: SyncOutcome,
}

} // verus!
