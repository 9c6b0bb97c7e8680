//! Verified core of a personal-finance ledger: input validation, date and
//! decimal arithmetic, exchange-rate derivation and conversion, report
//! aggregation, statement and CSV import parsing, and the display helpers the
//! user interface relies on.

pub mod accounts;
pub mod auth;
pub mod balances;
pub mod assets;
pub mod cashflow;
pub mod categories;
pub mod currency;
pub mod date;
pub mod decimal;
pub mod error;
pub mod ids;
pub mod income_expense;
pub mod ledger;
pub mod merchants;
pub mod money_flow;
pub mod net_worth;
pub mod periods;
pub mod seed;
pub mod statement_import;
pub mod text;
pub mod transaction_import;
pub mod transaction_types;
pub mod transfers;
pub mod transactions;
