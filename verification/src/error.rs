use vstd::prelude::*;

verus! {

/// Errors surfaced by the profile synchronization engine.
///
/// The engine never panics on expected conditions: a missing optional file is
/// handled by the mirror semantics, an absent user is reported as
/// `UserNotFound`, and any underlying file-system failure is `IOFailure`.
#[derive(Debug, Clone)]
pub enum LauncherError {
    /// An underlying file-system operation (read, write, copy, delete, mkdir)
    /// failed.
    IOFailure,
    /// An operation referenced a user directory that does not exist, or was
    /// given an empty user identifier.
    UserNotFound(String),
    /// Launch was requested while no user was selected.
    NoUserPresentOnLaunch,
}

impl LauncherError {
    /// Whether this error reports that user `name` was not found.
    pub open spec fn is_user_not_found(self, name: Seq<char>) -> bool {
        match self {
            LauncherError::UserNotFound(u) => u@ == name,
            _ => false,
        }
    }
}

} // verus!
