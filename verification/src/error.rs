//! The error type of the authentication layer. Every variant carries only a
//! message that is safe to show a user; internal failures (database,
//! hashing, randomness) collapse into [`AuthError::Internal`].

use vstd::prelude::*;

verus! {

/// Why an authentication step failed.
#[derive(Debug, Clone, Copy, PartialEq, Eq)]
pub enum AuthError {
    InvalidCredentials,
    EmailTaken,
    InvalidInput(&'static str),
    Internal,
}

/// The user-facing message for an authentication error.
pub open spec fn auth_error_text(e: AuthError) -> Seq<char> {
    match e {
        AuthError::InvalidCredentials => "invalid email or password"@,
        AuthError::EmailTaken => "an account with this email already exists"@,
        AuthError::InvalidInput(message) => message@,
        AuthError::Internal => "something went wrong"@,
    }
}

impl AuthError {
    /// The user-facing message for this error.
    pub fn message(&self) -> (r: &'static str)
        ensures
            r@ == auth_error_text(*self),
    {
        match self {
            AuthError::InvalidCredentials => "invalid email or password",
            AuthError::EmailTaken => "an account with this email already exists",
            AuthError::InvalidInput(message) => message,
            AuthError::Internal => "something went wrong",
        }
    }
}

} // verus!
