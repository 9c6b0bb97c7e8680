//! The account domain error and the account-name validator.

use vstd::prelude::*;

use crate::text::{nonblank_spec, trimmed_nonblank};

verus! {

/// Why an account operation failed; every message is safe to show a user.
#[derive(Debug, Clone, Copy, PartialEq, Eq)]
pub enum AccountError {
    Unauthorized,
    NotFound,
    UnknownAsset,
    InvalidInput(&'static str),
    Internal,
}

impl AccountError {
    /// The user-facing message for this error.
    pub fn message(&self) -> (r: &'static str)
        ensures
            r@ == (match *self {
                AccountError::Unauthorized => "you must be signed in to do this"@,
                AccountError::NotFound => "account not found"@,
                AccountError::UnknownAsset => "the selected currency does not exist"@,
                AccountError::InvalidInput(message) => message@,
                AccountError::Internal => "something went wrong"@,
            }),
    {
        match self {
            AccountError::Unauthorized => "you must be signed in to do this",
            AccountError::NotFound => "account not found",
            AccountError::UnknownAsset => "the selected currency does not exist",
            AccountError::InvalidInput(message) => message,
            AccountError::Internal => "something went wrong",
        }
    }
}

/// Trim the account name and require it non-blank.
pub fn validate_name(input: &str) -> (r: Result<String, AccountError>)
    ensures
        r is Ok <==> nonblank_spec(input@) is Some,
        r matches Ok(name) ==> nonblank_spec(input@) == Some(name@),
        r matches Err(e) ==> e == AccountError::InvalidInput("account name is required"),
{
    match trimmed_nonblank(input) {
        Some(name) => Ok(name),
        None => Err(AccountError::InvalidInput("account name is required")),
    }
}

} // verus!
