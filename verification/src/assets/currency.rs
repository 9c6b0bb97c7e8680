//! The fiat-currency rules: the alphabetic and numeric code shapes, the
//! minor-unit range, the reduction of a currency-list entry to what the
//! schema accepts, and the tally of a sync run.

use vstd::prelude::*;

use crate::assets::frankfurter::CurrencyRow;
use crate::assets::validate;
use crate::text::{
    nonblank_spec, opt_string_view, opt_view, optional_nonblank_spec, optional_trimmed, to_uppercase,
    trim, trim_spec, uppercase,
};

verus! {

/// Why a currency operation failed.
#[derive(Debug, Clone, Copy, PartialEq, Eq)]
pub enum CurrencyError {
    Unauthorized,
    CodeTaken,
    NotFound,
    InvalidInput(&'static str),
    Internal,
}

impl CurrencyError {
    /// The user-facing message for this error.
    pub fn message(&self) -> (r: &'static str)
        ensures
            r@ == (match *self {
                CurrencyError::Unauthorized => "you must be signed in to do this"@,
                CurrencyError::CodeTaken => "a currency with this code already exists"@,
                CurrencyError::NotFound => "currency not found"@,
                CurrencyError::InvalidInput(message) => message@,
                CurrencyError::Internal => "something went wrong"@,
            }),
    {
        match self {
            CurrencyError::Unauthorized => "you must be signed in to do this",
            CurrencyError::CodeTaken => "a currency with this code already exists",
            CurrencyError::NotFound => "currency not found",
            CurrencyError::InvalidInput(message) => message,
            CurrencyError::Internal => "something went wrong",
        }
    }
}

/// The columns needed to render a currency.
#[derive(Debug, Clone)]
pub struct CurrencyRecord {
    pub id: u128,
    pub alphabetic_code: String,
    pub numeric_code: Option<String>,
    pub currency_name: String,
    pub symbol: Option<String>,
    pub minor_units: i16,
    pub is_active: bool,
}

/// Exactly three ASCII capital letters.
pub open spec fn is_alpha_code(s: Seq<char>) -> bool {
    s.len() == 3 && forall|i: int| 0 <= i < 3 ==> 'A' <= #[trigger] s[i] <= 'Z'
}

/// Exactly three ASCII digits.
pub open spec fn is_numeric_code(s: Seq<char>) -> bool {
    s.len() == 3 && forall|i: int| 0 <= i < 3 ==> '0' <= #[trigger] s[i] <= '9'
}

/// The alphabetic code `input` normalizes to: trimmed and uppercased, then
/// exactly three letters.
pub open spec fn alpha_code_spec(input: Seq<char>) -> Option<Seq<char>> {
    let code = uppercase(trim_spec(input));
    if is_alpha_code(code) {
        Some(code)
    } else {
        None
    }
}

/// What an optional numeric code gives: absent when blank, the trimmed
/// three digits, or `Err(())` for any other shape.
pub open spec fn numeric_code_spec(input: Option<Seq<char>>) -> Result<Option<Seq<char>>, ()> {
    match optional_nonblank_spec(input) {
        None => Ok(None),
        Some(code) => if is_numeric_code(code) {
            Ok(Some(code))
        } else {
            Err(())
        },
    }
}

/// Whether `v` holds exactly three characters in `lo..=hi`.
fn three_in_range(v: &Vec<char>, lo: char, hi: char) -> (r: bool)
    ensures
        r == (v@.len() == 3 && forall|i: int| 0 <= i < 3 ==> lo <= #[trigger] v@[i] <= hi),
{
    if v.len() != 3 {
        return false;
    }
    let mut i: usize = 0;
    while i < 3
        invariant
            i <= 3,
            v@.len() == 3,
            forall|j: int| 0 <= j < i ==> lo <= #[trigger] v@[j] <= hi,
        decreases 3 - i,
    {
        if !(lo <= v[i] && v[i] <= hi) {
            return false;
        }
        i = i + 1;
    }
    true
}

/// The normalized three-letter alphabetic code, or `None`.
pub fn alphabetic_code(input: &str) -> (r: Option<String>)
    ensures
        opt_string_view(r) == alpha_code_spec(input@),
{
    let code = to_uppercase(trim(input).as_str());
    let v = crate::text::chars_of(code.as_str());
    if three_in_range(&v, 'A', 'Z') {
        Some(code)
    } else {
        None
    }
}

/// The normalized optional numeric code.
pub fn numeric_code(input: Option<&str>) -> (r: Result<Option<String>, ()>)
    ensures
        match numeric_code_spec(opt_view(input)) {
            Ok(c) => r matches Ok(x) && opt_string_view(x) == c,
            Err(()) => r is Err,
        },
{
    match optional_trimmed(input) {
        None => Ok(None),
        Some(code) => {
            let v = crate::text::chars_of(code.as_str());
            if three_in_range(&v, '0', '9') {
                Ok(Some(code))
            } else {
                Err(())
            }
        },
    }
}

/// Normalize and validate a 3-letter alphabetic currency code: trimmed,
/// uppercased, then exactly three ASCII letters.
pub fn validate_alphabetic_code(input: &str) -> (r: Result<String, CurrencyError>)
    ensures
        r is Ok <==> alpha_code_spec(input@) is Some,
        r matches Ok(c) ==> alpha_code_spec(input@) == Some(c@),
        r matches Err(e) ==> e == CurrencyError::InvalidInput(
            "alphabetic code must be exactly 3 letters",
        ),
{
    match alphabetic_code(input) {
        Some(c) => Ok(c),
        None => Err(CurrencyError::InvalidInput("alphabetic code must be exactly 3 letters")),
    }
}

/// Normalize and validate an optional 3-digit numeric currency code; blank
/// input is absent.
pub fn validate_numeric_code(input: Option<&str>) -> (r: Result<Option<String>, CurrencyError>)
    ensures
        match numeric_code_spec(opt_view(input)) {
            Ok(c) => r matches Ok(x) && opt_string_view(x) == c,
            Err(()) => r == Err::<Option<String>, CurrencyError>(
                CurrencyError::InvalidInput("numeric code must be exactly 3 digits"),
            ),
        },
{
    match numeric_code(input) {
        Ok(c) => Ok(c),
        Err(()) => Err(CurrencyError::InvalidInput("numeric code must be exactly 3 digits")),
    }
}

/// Validate the minor-unit count is within `0..=18`.
pub fn validate_minor_units(input: i16) -> (r: Result<i16, CurrencyError>)
    ensures
        0 <= input <= 18 ==> r == Ok::<i16, CurrencyError>(input),
        !(0 <= input <= 18) ==> r == Err::<i16, CurrencyError>(
            CurrencyError::InvalidInput("minor units must be between 0 and 18"),
        ),
{
    if input < 0 || input > 18 {
        return Err(CurrencyError::InvalidInput("minor units must be between 0 and 18"));
    }
    Ok(input)
}

/// A currency-list entry that passed validation, ready to upsert.
#[derive(Debug, Clone)]
pub struct NormalisedCurrency {
    pub code: String,
    pub numeric_code: Option<String>,
    pub name: String,
    pub symbol: Option<String>,
}

/// The view of a normalised currency: `(code, numeric code, name, symbol)`.
pub open spec fn normalised_view(n: NormalisedCurrency) -> (
    Seq<char>,
    Option<Seq<char>>,
    Seq<char>,
    Option<Seq<char>>,
) {
    (n.code@, opt_string_view(n.numeric_code), n.name@, opt_string_view(n.symbol))
}

/// What [`normalise`] keeps of a currency-list entry: `None` when its code
/// or name cannot be used; a malformed numeric code or a blank symbol is
/// cleared rather than rejecting the currency.
pub open spec fn normalise_spec(row: CurrencyRow) -> Option<
    (Seq<char>, Option<Seq<char>>, Seq<char>, Option<Seq<char>>),
> {
    match (alpha_code_spec(row.iso_code@), nonblank_spec(row.name@)) {
        (Some(code), Some(name)) => Some(
            (
                code,
                match numeric_code_spec(opt_string_view(row.iso_numeric)) {
                    Ok(n) => n,
                    Err(()) => None,
                },
                name,
                optional_nonblank_spec(opt_string_view(row.symbol)),
            ),
        ),
        _ => None,
    }
}

/// Reduce a currency-list entry to what the schema accepts, or `None` if its
/// code or name cannot be used.
pub fn normalise(row: CurrencyRow) -> (r: Option<NormalisedCurrency>)
    ensures
        match normalise_spec(row) {
            None => r is None,
            Some(v) => r matches Some(n) && normalised_view(n) == v,
        },
{
    let code = match validate_alphabetic_code(row.iso_code.as_str()) {
        Ok(c) => c,
        Err(_) => return None,
    };
    let name = match validate::name(row.name.as_str()) {
        Ok(n) => n,
        Err(_) => return None,
    };
    let symbol = match &row.symbol {
        None => validate::symbol(None),
        Some(s) => validate::symbol(Some(s.as_str())),
    };
    let numeric = match &row.iso_numeric {
        None => validate_numeric_code(None),
        Some(s) => validate_numeric_code(Some(s.as_str())),
    };
    let numeric_code = match numeric {
        Ok(n) => n,
        Err(_) => None,
    };
    Some(NormalisedCurrency { code, numeric_code, name, symbol })
}

/// What one currency-list sync run did.
#[derive(Debug, Clone, Copy, PartialEq, Eq)]
pub struct SyncSummary {
    pub inserted: usize,
    pub updated: usize,
    pub skipped: usize,
}

impl SyncSummary {
    /// Nothing done yet.
    pub fn new() -> (r: SyncSummary)
        ensures
            r == (SyncSummary { inserted: 0, updated: 0, skipped: 0 }),
    {
        SyncSummary { inserted: 0, updated: 0, skipped: 0 }
    }

    /// Count one upsert: `Ok(Some(true))` inserted, `Ok(Some(false))`
    /// refreshed, `Ok(None)` skipped for a soft-deleted holder of its code,
    /// and a failure skipped too.
    pub fn record(&mut self, outcome: Result<Option<bool>, ()>)
        requires
            old(self).inserted < usize::MAX,
            old(self).updated < usize::MAX,
            old(self).skipped < usize::MAX,
        ensures
            *final(self) == match outcome {
                Ok(Some(true)) => SyncSummary { inserted: (old(self).inserted + 1) as usize, ..*old(self) },
                Ok(Some(false)) => SyncSummary { updated: (old(self).updated + 1) as usize, ..*old(self) },
                _ => SyncSummary { skipped: (old(self).skipped + 1) as usize, ..*old(self) },
            },
    {
        match outcome {
            Ok(Some(true)) => self.inserted = self.inserted + 1,
            Ok(Some(false)) => self.updated = self.updated + 1,
            _ => self.skipped = self.skipped + 1,
        }
    }
}

} // verus!
