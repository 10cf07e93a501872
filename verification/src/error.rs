//! The failures of fetching a user's favourite characters.

use vstd::prelude::*;

verus! {

/// What went wrong when the upstream service was asked for a user's
/// favourites.
#[derive(Debug, Clone, PartialEq, Eq)]
pub enum Error {
    /// The service knows no user of that name.
    UserNotFound(String),
    /// The service answered with something other than the data asked for.
    BadResponse,
    /// The service refused the request because too many were made.
    RateLimited,
}

impl Error {
    /// Whether the failure says something about the service's health, as
    /// opposed to the request: everything but an unknown user does.
    pub open spec fn is_systemic(self) -> bool {
        !(self is UserNotFound)
    }
}

} // verus!
