//! Lifecycle notifications sent to the UI channel.
//!
//! Every reconciliation run announces itself with an `InProgress` payload
//! when the execution lock is acquired and a `Finished` payload when the
//! lock is released; a run that downloaded sessions additionally asks the
//! UI to reload, and a failed background run reports the error text.

use vstd::prelude::*;

verus! {

/// The phase a reconciliation run reports to the UI.
#[derive(Debug, Clone, PartialEq, Eq, Structural)]
pub enum SyncStatus {
    InProgress,
    RequireReload,
    Finished,
    Error,
}

/// One notification event: a status, plus the error text when the status
/// is `Error`.
#[derive(Debug, Clone)]
pub struct SyncPayload {
    pub status: SyncStatus,
    pub error_message: Option<String>,
}

impl SyncPayload {
    /// The payload emitted when the execution lock is acquired.
    pub fn in_progress() -> (r: SyncPayload)
        ensures
            r.status == SyncStatus::InProgress,
            r.error_message is None,
    {
        SyncPayload { status: SyncStatus::InProgress, error_message: None }
    }

    /// The payload emitted when the execution lock is released.
    pub fn finished() -> (r: SyncPayload)
        ensures
            r.status == SyncStatus::Finished,
            r.error_message is None,
    {
        SyncPayload { status: SyncStatus::Finished, error_message: None }
    }

    /// The payload emitted after a run that downloaded at least one session.
    pub fn require_reload() -> (r: SyncPayload)
        ensures
            r.status == SyncStatus::RequireReload,
            r.error_message is None,
    {
        SyncPayload { status: SyncStatus::RequireReload, error_message: None }
    }

    /// The payload the background driver emits when a run fails.
    pub fn error(message: String) -> (r: SyncPayload)
        ensures
            r.status == SyncStatus::Error,
            r.error_message == Some(message),
    {
        SyncPayload { status: SyncStatus::Error, error_message: Some(message) }
    }
}

} // verus!
