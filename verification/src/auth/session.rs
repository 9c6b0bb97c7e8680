//! The session lifetime rules and the user a valid session resolves to.

use vstd::prelude::*;

verus! {

/// Session lifetime, in days. A validation slides the expiry this far
/// forward from the database's current time.
pub const SESSION_TTL_DAYS: i32 = 30;

/// Slide the session expiry at most once per this many hours of use.
pub const SESSION_SLIDE_THROTTLE_HOURS: i32 = 1;

/// The user behind a valid session.
#[derive(Debug, Clone)]
pub struct AuthenticatedUser {
    pub user_id: u128,
    pub email: String,
    pub display_name: Option<String>,
}

} // verus!
