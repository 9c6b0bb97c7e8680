//! The fiat-currency domain error and the input validation of the currency
//! server functions: the code shapes, the name, the symbol and the
//! minor-unit range. The rules themselves are those of
//! [`crate::assets::currency`].

use vstd::prelude::*;

use crate::assets::currency::{alpha_code_spec, alphabetic_code, numeric_code, numeric_code_spec};
use crate::text::{
    nonblank_spec, opt_string_view, opt_view, optional_nonblank_spec, optional_trimmed,
    trimmed_nonblank,
};

verus! {

/// Why a currency operation failed.
#[derive(Debug, Clone, Copy, PartialEq, Eq)]
pub enum CurrencyError {
    Unauthorized,
    CodeTaken,
    NotFound,
    InvalidInput(&'static str),
    Internal,
}

impl CurrencyError {
    /// The user-facing message for this error.
    pub fn message(&self) -> (r: &'static str)
        ensures
            r@ == (match *self {
                CurrencyError::Unauthorized => "you must be signed in to do this"@,
                CurrencyError::CodeTaken => "a currency with this code already exists"@,
                CurrencyError::NotFound => "currency not found"@,
                CurrencyError::InvalidInput(message) => message@,
                CurrencyError::Internal => "something went wrong"@,
            }),
    {
        match self {
            CurrencyError::Unauthorized => "you must be signed in to do this",
            CurrencyError::CodeTaken => "a currency with this code already exists",
            CurrencyError::NotFound => "currency not found",
            CurrencyError::InvalidInput(message) => message,
            CurrencyError::Internal => "something went wrong",
        }
    }
}

/// The columns needed to render a currency.
#[derive(Debug, Clone)]
pub struct CurrencyRecord {
    pub id: u128,
    pub alphabetic_code: String,
    pub numeric_code: Option<String>,
    pub currency_name: String,
    pub symbol: Option<String>,
    pub minor_units: i16,
    pub is_active: bool,
}

/// Normalize and validate a 3-letter alphabetic currency code: trimmed,
/// uppercased, then exactly three ASCII letters.
pub fn validate_alphabetic_code(input: &str) -> (r: Result<String, CurrencyError>)
    ensures
        r is Ok <==> alpha_code_spec(input@) is Some,
        r matches Ok(c) ==> alpha_code_spec(input@) == Some(c@),
        r matches Err(e) ==> e == CurrencyError::InvalidInput(
            "alphabetic code must be exactly 3 letters",
        ),
{
    match alphabetic_code(input) {
        Some(c) => Ok(c),
        None => Err(CurrencyError::InvalidInput("alphabetic code must be exactly 3 letters")),
    }
}

/// Normalize and validate an optional 3-digit numeric currency code; blank
/// input is absent.
pub fn validate_numeric_code(input: Option<&str>) -> (r: Result<Option<String>, CurrencyError>)
    ensures
        match numeric_code_spec(opt_view(input)) {
            Ok(c) => r matches Ok(x) && opt_string_view(x) == c,
            Err(()) => r == Err::<Option<String>, CurrencyError>(
                CurrencyError::InvalidInput("numeric code must be exactly 3 digits"),
            ),
        },
{
    match numeric_code(input) {
        Ok(c) => Ok(c),
        Err(()) => Err(CurrencyError::InvalidInput("numeric code must be exactly 3 digits")),
    }
}

/// Trim the currency name and require it non-blank.
pub fn validate_currency_name(input: &str) -> (r: Result<String, CurrencyError>)
    ensures
        r is Ok <==> nonblank_spec(input@) is Some,
        r matches Ok(n) ==> nonblank_spec(input@) == Some(n@),
        r matches Err(e) ==> e == CurrencyError::InvalidInput("currency name is required"),
{
    match trimmed_nonblank(input) {
        Some(n) => Ok(n),
        None => Err(CurrencyError::InvalidInput("currency name is required")),
    }
}

/// Trim an optional symbol, treating blank as absent.
pub fn validate_symbol(input: Option<&str>) -> (r: Option<String>)
    ensures
        opt_string_view(r) == optional_nonblank_spec(opt_view(input)),
{
    optional_trimmed(input)
}

/// Validate the minor-unit count is within `0..=18`.
pub fn validate_minor_units(input: i16) -> (r: Result<i16, CurrencyError>)
    ensures
        0 <= input <= 18 ==> r == Ok::<i16, CurrencyError>(input),
        !(0 <= input <= 18) ==> r == Err::<i16, CurrencyError>(
            CurrencyError::InvalidInput("minor units must be between 0 and 18"),
        ),
{
    if input < 0 || input > 18 {
        return Err(CurrencyError::InvalidInput("minor units must be between 0 and 18"));
    }
    Ok(input)
}

} // verus!
