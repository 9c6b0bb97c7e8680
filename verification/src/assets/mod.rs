//! The `assets` spine: shared validation of asset columns, the fiat-currency
//! rules and the currency-list sync, exchange-rate parsing and derivation,
//! the conversion primitive, the rate-table cache entries and the schedule
//! of the background tasks.

pub mod conversion;
pub mod currency;
pub mod frankfurter;
pub mod fx_cache;
pub mod fx_sync;
pub mod rates;
pub mod schedule;
pub mod validate;
