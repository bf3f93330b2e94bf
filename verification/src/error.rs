//! Errors of the synchronization core.

use vstd::prelude::*;

verus! {

use vstd::string::StringExecFns;

/// A failure detected before any network transfer is attempted: the
/// provider configuration or its refresh token is missing from settings.
#[derive(Debug, Clone, PartialEq, Eq, Structural)]
pub enum SyncError {
    MissingProviderConfig,
    MissingAuthToken,
}

impl SyncError {
    /// The text reported to the caller for this error.
    pub fn message(&self) -> (r: String)
        ensures
            *self == SyncError::MissingProviderConfig ==> r@ == "Provider config not found"@,
            *self == SyncError::MissingAuthToken ==> r@ == "Authentication token missing"@,
    {
        match self {
            SyncError::MissingProviderConfig => String::from_str("Provider config not found"),
            SyncError::MissingAuthToken => String::from_str("Authentication token missing"),
        }
    }
}

} // verus!
