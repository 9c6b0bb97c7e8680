//! The merchant domain error and the merchant-name validator.

use vstd::prelude::*;

use crate::text::{nonblank_spec, trimmed_nonblank};

verus! {

/// Why a merchant operation failed; every message is safe to show a user.
#[derive(Debug, Clone, Copy, PartialEq, Eq)]
pub enum MerchantError {
    Unauthorized,
    NotFound,
    DuplicateName,
    UnknownCategory,
    InvalidInput(&'static str),
    Internal,
}

impl MerchantError {
    /// The user-facing message for this error.
    pub fn message(&self) -> (r: &'static str)
        ensures
            r@ == (match *self {
                MerchantError::Unauthorized => "you must be signed in to do this"@,
                MerchantError::NotFound => "merchant not found"@,
                MerchantError::DuplicateName => "you already have a merchant with that name"@,
                MerchantError::UnknownCategory => "the selected category does not exist"@,
                MerchantError::InvalidInput(message) => message@,
                MerchantError::Internal => "something went wrong"@,
            }),
    {
        match self {
            MerchantError::Unauthorized => "you must be signed in to do this",
            MerchantError::NotFound => "merchant not found",
            MerchantError::DuplicateName => "you already have a merchant with that name",
            MerchantError::UnknownCategory => "the selected category does not exist",
            MerchantError::InvalidInput(message) => message,
            MerchantError::Internal => "something went wrong",
        }
    }
}

/// Trim the merchant name and require it non-blank.
pub fn validate_name(input: &str) -> (r: Result<String, MerchantError>)
    ensures
        r is Ok <==> nonblank_spec(input@) is Some,
        r matches Ok(name) ==> nonblank_spec(input@) == Some(name@),
        r matches Err(e) ==> e == MerchantError::InvalidInput("merchant name is required"),
{
    match trimmed_nonblank(input) {
        Some(name) => Ok(name),
        None => Err(MerchantError::InvalidInput("merchant name is required")),
    }
}

} // verus!
