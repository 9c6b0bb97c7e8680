# finall

A personal-finance ledger. Accounts hold transactions in their own currency;
reports (income and expense, net worth, money flow, cashflow) value them in a
display currency through exchange rates fetched from Frankfurter.

## Layout

- `src/` — the verified library (Verus). Validation of user input, calendar
  dates, exact decimals of any size and their rounding, rate derivation and currency
  conversion, report aggregation, bank-statement and CSV import parsing,
  session-token and cookie handling, and the formatting helpers the ledger
  view uses. Every public function states what it returns in its contract;
  the laws that relate several functions (round trips of dates, identifiers
  and cursors, the partition of ledger rows into day groups, the period
  windows, the direction of a transfer link, the totals and placement of the
  income-and-expense report, the valuation of net worth) are public proof
  functions.
  Calls into outside crates (`bigdecimal`, `chrono`, `uuid`, `csv`, `sha2`,
  `argon2`, `getrandom`) go through small trusted wrappers whose doc
  comments say what is assumed of them.
- `tests/` — tests of the library on concrete values.
- `app/` — the server around the library: database access (`sqlx`), HTTP
  handlers (`axum`), the Frankfurter client (`reqwest`), PDF text extraction
  (`pdf-extract`), background tasks (`tokio`), and the chart geometry, which
  is computed in floating point.
