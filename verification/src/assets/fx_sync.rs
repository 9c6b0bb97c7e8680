//! Syncing the fiat-currency list into the currency tables: each entry is
//! normalised with the shared validators, then inserted when new, refreshed
//! only when its name, symbol or numeric code actually changed, and left
//! alone when a soft-deleted row holds its code.

use vstd::prelude::*;

use crate::assets::currency::{normalised_view, normalise_spec, NormalisedCurrency};
use crate::assets::frankfurter::{CurrencyRow, FrankfurterError};
use crate::text::{opt_string_view, str_eq};

verus! {

/// Why a currency sync could not complete.
#[derive(Debug, Clone, Copy, PartialEq, Eq)]
pub enum SyncError {
    Source,
    Internal,
}

impl SyncError {
    /// The user-facing message for this error.
    pub fn message(&self) -> (r: &'static str)
        ensures
            r@ == (match *self {
                SyncError::Source => "could not reach the exchange-rate source"@,
                SyncError::Internal => "something went wrong"@,
            }),
    {
        match self {
            SyncError::Source => "could not reach the exchange-rate source",
            SyncError::Internal => "something went wrong",
        }
    }
}

impl From<FrankfurterError> for SyncError {
    fn from(err: FrankfurterError) -> (r: SyncError) {
        SyncError::Source
    }
}

impl vstd::std_specs::convert::FromSpecImpl<FrankfurterError> for SyncError {
    open spec fn obeys_from_spec() -> bool {
        true
    }

    open spec fn from_spec(v: FrankfurterError) -> SyncError {
        SyncError::Source
    }
}

/// Reduce a currency-list entry to what the schema accepts, or `None` if its
/// code or name cannot be used. A malformed numeric code or a blank symbol is
/// cleared rather than rejecting the whole currency.
pub fn normalise(row: CurrencyRow) -> (r: Option<NormalisedCurrency>)
    ensures
        match normalise_spec(row) {
            None => r is None,
            Some(v) => r matches Some(n) && normalised_view(n) == v,
        },
{
    crate::assets::currency::normalise(row)
}

/// What upserting one currency did.
#[derive(Debug, Clone, Copy, PartialEq, Eq)]
pub enum UpsertOutcome {
    Inserted,
    Updated,
    Unchanged,
    SkippedDeleted,
}

/// The stored row that already holds a currency's code.
#[derive(Debug, Clone)]
pub struct ExistingCurrency {
    pub id: u128,
    pub deleted: bool,
    pub asset_name: String,
    pub symbol: Option<String>,
    pub numeric_code: Option<String>,
}

/// What to do for one currency, given the row already holding its code.
pub open spec fn upsert_spec(existing: Option<ExistingCurrency>, currency: NormalisedCurrency) -> UpsertOutcome {
    match existing {
        None => UpsertOutcome::Inserted,
        Some(row) => if row.deleted {
            UpsertOutcome::SkippedDeleted
        } else if row.asset_name@ == currency.name@ && opt_string_view(row.symbol)
            == opt_string_view(currency.symbol) && opt_string_view(row.numeric_code)
            == opt_string_view(currency.numeric_code) {
            UpsertOutcome::Unchanged
        } else {
            UpsertOutcome::Updated
        },
    }
}

/// Whether two optional texts are equal.
fn same_optional(a: &Option<String>, b: &Option<String>) -> (r: bool)
    ensures
        r == (opt_string_view(*a) == opt_string_view(*b)),
{
    match (a, b) {
        (None, None) => true,
        (Some(x), Some(y)) => str_eq(x.as_str(), y.as_str()),
        _ => false,
    }
}

/// Decide one currency's upsert: a soft-deleted holder of the code is left
/// untouched; an existing row whose name, symbol and numeric code already
/// all match is left untouched too (no timestamp bump); any other existing
/// row is refreshed; a missing one is inserted.
pub fn upsert_decision(existing: &Option<ExistingCurrency>, currency: &NormalisedCurrency) -> (r:
    UpsertOutcome)
    ensures
        r == upsert_spec(*existing, *currency),
{
    match existing {
        None => UpsertOutcome::Inserted,
        Some(row) => {
            if row.deleted {
                UpsertOutcome::SkippedDeleted
            } else if str_eq(row.asset_name.as_str(), currency.name.as_str()) && same_optional(
                &row.symbol,
                &currency.symbol,
            ) && same_optional(&row.numeric_code, &currency.numeric_code) {
                UpsertOutcome::Unchanged
            } else {
                UpsertOutcome::Updated
            }
        },
    }
}

/// What one currency sync run did.
#[derive(Debug, Clone, Copy, PartialEq, Eq)]
pub struct SyncSummary {
    pub inserted: usize,
    pub updated: usize,
    pub unchanged: usize,
    pub skipped: usize,
}

impl SyncSummary {
    /// Nothing done yet.
    pub fn new() -> (r: SyncSummary)
        ensures
            r == (SyncSummary { inserted: 0, updated: 0, unchanged: 0, skipped: 0 }),
    {
        SyncSummary { inserted: 0, updated: 0, unchanged: 0, skipped: 0 }
    }

    /// Count one upsert; a failed one counts as skipped.
    pub fn record(&mut self, outcome: Result<UpsertOutcome, ()>)
        requires
            old(self).inserted < usize::MAX,
            old(self).updated < usize::MAX,
            old(self).unchanged < usize::MAX,
            old(self).skipped < usize::MAX,
        ensures
            *final(self) == match outcome {
                Ok(UpsertOutcome::Inserted) => SyncSummary {
                    inserted: (old(self).inserted + 1) as usize,
                    ..*old(self)
                },
                Ok(UpsertOutcome::Updated) => SyncSummary {
                    updated: (old(self).updated + 1) as usize,
                    ..*old(self)
                },
                Ok(UpsertOutcome::Unchanged) => SyncSummary {
                    unchanged: (old(self).unchanged + 1) as usize,
                    ..*old(self)
                },
                _ => SyncSummary { skipped: (old(self).skipped + 1) as usize, ..*old(self) },
            },
    {
        match outcome {
            Ok(UpsertOutcome::Inserted) => self.inserted = self.inserted + 1,
            Ok(UpsertOutcome::Updated) => self.updated = self.updated + 1,
            Ok(UpsertOutcome::Unchanged) => self.unchanged = self.unchanged + 1,
            _ => self.skipped = self.skipped + 1,
        }
    }
}

} // verus!
