//! The Frankfurter v2 API payloads: validation of the `/v2/rates` rows into
//! exact reference rates, the `/v2/currencies` row shape, and the API root.
//! Fetching and JSON decoding happen at the edge; this module receives the
//! decoded fields (each rate as its raw JSON number text) and decides.

use vstd::prelude::*;

use crate::date::{chrono_parse_ymd, days_from_civil, Date};
use crate::decimal::{parse_spec, Decimal};
use crate::text::{chars_of, nonblank_spec, str_eq, string_of, trim, trim_spec, trimmed_nonblank};

verus! {

/// `rate_source` tag stored on every rate sourced from Frankfurter.
pub const RATE_SOURCE: &'static str = "frankfurter.dev";

/// The Frankfurter API host used unless one is configured.
pub const DEFAULT_API_ROOT: &'static str = "https://api.frankfurter.dev";

/// Microseconds in one day.
pub const MICROS_PER_DAY: i64 = 86_400_000_000;

/// Why a Frankfurter request could not be completed.
#[derive(Debug, Clone, Copy, PartialEq, Eq)]
pub enum FrankfurterError {
    Fetch,
    Parse(&'static str),
}

impl FrankfurterError {
    /// The user-facing message for this error.
    pub fn message(&self) -> (r: &'static str)
        ensures
            r@ == (match *self {
                FrankfurterError::Fetch => "could not reach the exchange-rate source"@,
                FrankfurterError::Parse(message) => message@,
            }),
    {
        match self {
            FrankfurterError::Fetch => "could not reach the exchange-rate source",
            FrankfurterError::Parse(message) => message,
        }
    }
}

/// One decoded row of the `/v2/rates` response; `rate` is the raw JSON text
/// of the number, so it is parsed exactly rather than through a float.
#[derive(Debug, Clone)]
pub struct RateRow {
    pub date: String,
    pub base: String,
    pub quote: String,
    pub rate: String,
}

/// A validated rate: its reference date at `00:00:00Z` (microseconds since
/// the Unix epoch), the quote currency code, and an exact positive
/// `base -> quote` rate.
#[derive(Debug, Clone)]
pub struct ReferenceRate {
    pub observed_at: i64,
    pub quote_code: String,
    pub rate: Decimal,
}

/// One entry of the `/v2/currencies` response.
#[derive(Debug, Clone)]
pub struct CurrencyRow {
    pub iso_code: String,
    pub iso_numeric: Option<String>,
    pub name: String,
    pub symbol: Option<String>,
}

/// What one rate row contributes.
pub enum RowVerdict {
    /// A quote of the base against itself, dropped.
    Skip,
    /// A valid rate: `(observed_at, rate)`.
    Keep(int, Decimal),
    /// The whole payload is rejected with this message.
    Reject(&'static str),
}

/// The verdict on one row of a payload expected to carry `base`.
pub open spec fn row_verdict(row: RateRow, base: Seq<char>) -> RowVerdict {
    if row.base@ != base {
        RowVerdict::Reject("exchange-rate response had an unexpected base currency")
    } else if row.quote@ == row.base@ {
        RowVerdict::Skip
    } else {
        match chrono_parse_ymd(row.date@) {
            None => RowVerdict::Reject("exchange-rate response had an invalid reference date"),
            Some(ymd) => match parse_spec(trim_spec(row.rate@)) {
                None => RowVerdict::Reject("exchange-rate response had a non-numeric rate"),
                Some(r) => if r.m() <= 0 {
                    RowVerdict::Reject("exchange-rate response had a non-positive rate")
                } else {
                    RowVerdict::Keep(
                        days_from_civil(ymd.0, ymd.1, ymd.2) * MICROS_PER_DAY,
                        r,
                    )
                },
            },
        }
    }
}

/// The view of a validated rate.
pub open spec fn ref_view(r: ReferenceRate) -> (int, Seq<char>, Decimal) {
    (r.observed_at as int, r.quote_code@, r.rate)
}

/// The rates kept from the first `n` rows, or the first rejection.
pub open spec fn rows_prefix_spec(rows: Seq<RateRow>, base: Seq<char>, n: nat) -> Result<
    Seq<(int, Seq<char>, Decimal)>,
    &'static str,
>
    decreases n,
{
    if n == 0 {
        Ok(Seq::empty())
    } else {
        match rows_prefix_spec(rows, base, (n - 1) as nat) {
            Err(e) => Err(e),
            Ok(acc) => match row_verdict(rows[n - 1], base) {
                RowVerdict::Skip => Ok(acc),
                RowVerdict::Keep(t, r) => Ok(acc.push((t, rows[n - 1].quote@, r))),
                RowVerdict::Reject(m) => Err(m),
            },
        }
    }
}

/// What [`validate_rate_rows`] returns for `rows`.
pub open spec fn rows_spec(rows: Seq<RateRow>, base: Seq<char>) -> Result<
    Seq<(int, Seq<char>, Decimal)>,
    &'static str,
> {
    if rows.len() == 0 {
        Err("exchange-rate response contained no rates")
    } else {
        rows_prefix_spec(rows, base, rows.len())
    }
}

proof fn lemma_rows_err_sticks(rows: Seq<RateRow>, base: Seq<char>, i: nat, n: nat, e: &'static str)
    requires
        i <= n,
        rows_prefix_spec(rows, base, i) == Err::<Seq<(int, Seq<char>, Decimal)>, &'static str>(e),
    ensures
        rows_prefix_spec(rows, base, n) == Err::<Seq<(int, Seq<char>, Decimal)>, &'static str>(e),
    decreases n - i,
{
    if i < n {
        lemma_rows_err_sticks(rows, base, i + 1, n, e);
    }
}

/// Validate decoded `/v2/rates` rows for `expected_base`: every row must
/// carry that base, a valid date and a positive decimal rate; a row quoting
/// the base against itself is skipped; an empty payload is rejected. The
/// first bad row rejects the whole payload with its message.
pub fn validate_rate_rows(rows: &Vec<RateRow>, expected_base: &str) -> (r: Result<
    Vec<ReferenceRate>,
    &'static str,
>)
    ensures
        r matches Ok(v) ==> rows_spec(rows@, expected_base@) == Ok::<
            Seq<(int, Seq<char>, Decimal)>,
            &'static str,
        >(v@.map_values(|x: ReferenceRate| ref_view(x))),
        r matches Err(e) ==> rows_spec(rows@, expected_base@) == Err::<
            Seq<(int, Seq<char>, Decimal)>,
            &'static str,
        >(e),
{
    if rows.len() == 0 {
        return Err("exchange-rate response contained no rates");
    }
    let mut out: Vec<ReferenceRate> = Vec::new();
    let mut i: usize = 0;
    assert(out@.map_values(|x: ReferenceRate| ref_view(x)) =~= Seq::empty());
    while i < rows.len()
        invariant
            i <= rows.len(),
            rows_prefix_spec(rows@, expected_base@, i as nat) == Ok::<
                Seq<(int, Seq<char>, Decimal)>,
                &'static str,
            >(out@.map_values(|x: ReferenceRate| ref_view(x))),
        decreases rows.len() - i,
    {
        let row = &rows[i];
        if !str_eq(row.base.as_str(), expected_base) {
            proof {
                lemma_rows_err_sticks(
                    rows@,
                    expected_base@,
                    (i + 1) as nat,
                    rows.len() as nat,
                    "exchange-rate response had an unexpected base currency",
                );
            }
            return Err("exchange-rate response had an unexpected base currency");
        }
        if str_eq(row.quote.as_str(), row.base.as_str()) {
            i = i + 1;
            continue;
        }
        let date = match Date::parse_iso(row.date.as_str()) {
            Some(d) => d,
            None => {
                proof {
                    lemma_rows_err_sticks(
                        rows@,
                        expected_base@,
                        (i + 1) as nat,
                        rows.len() as nat,
                        "exchange-rate response had an invalid reference date",
                    );
                }
                return Err("exchange-rate response had an invalid reference date");
            },
        };
        let text = trim(row.rate.as_str());
        let rate = match Decimal::parse(text.as_str()) {
            Some(r) => r,
            None => {
                proof {
                    lemma_rows_err_sticks(
                        rows@,
                        expected_base@,
                        (i + 1) as nat,
                        rows.len() as nat,
                        "exchange-rate response had a non-numeric rate",
                    );
                }
                return Err("exchange-rate response had a non-numeric rate");
            },
        };
        if !rate.is_positive() {
            proof {
                lemma_rows_err_sticks(
                    rows@,
                    expected_base@,
                    (i + 1) as nat,
                    rows.len() as nat,
                    "exchange-rate response had a non-positive rate",
                );
            }
            return Err("exchange-rate response had a non-positive rate");
        }
        let days = crate::date::civil_days(date.year, date.month, date.day);
        assert(-100_000_000 <= days <= 100_000_000) by (nonlinear_arith)
            requires
                days == days_from_civil(date.year as int, date.month as int, date.day as int),
                crate::date::MIN_YEAR <= date.year <= crate::date::MAX_YEAR,
                1 <= date.month <= 12,
                1 <= date.day <= 31,
        ;
        let observed_at = days * MICROS_PER_DAY;
        let ghost before = out@;
        out.push(ReferenceRate { observed_at, quote_code: row.quote.clone(), rate });
        assert(out@.map_values(|x: ReferenceRate| ref_view(x)) =~= before.map_values(
            |x: ReferenceRate| ref_view(x),
        ).push((observed_at as int, rows@[i as int].quote@, rate)));
        i = i + 1;
    }
    Ok(out)
}

/// Parse a `/v2/rates` payload's rows into validated rates, rejecting the
/// payload with [`FrankfurterError::Parse`] on the first bad row.
pub fn parse_rows(rows: &Vec<RateRow>, expected_base: &str) -> (r: Result<
    Vec<ReferenceRate>,
    FrankfurterError,
>)
    ensures
        r matches Ok(v) ==> rows_spec(rows@, expected_base@) == Ok::<
            Seq<(int, Seq<char>, Decimal)>,
            &'static str,
        >(v@.map_values(|x: ReferenceRate| ref_view(x))),
        r matches Err(e) ==> (e matches FrankfurterError::Parse(m) && rows_spec(
            rows@,
            expected_base@,
        ) == Err::<Seq<(int, Seq<char>, Decimal)>, &'static str>(m)),
{
    match validate_rate_rows(rows, expected_base) {
        Ok(v) => Ok(v),
        Err(m) => Err(FrankfurterError::Parse(m)),
    }
}

/// `s` without its trailing `'/'` characters.
pub open spec fn trim_end_slashes(s: Seq<char>) -> Seq<char>
    decreases s.len(),
{
    if s.len() > 0 && s.last() == '/' {
        trim_end_slashes(s.drop_last())
    } else {
        s
    }
}

/// The API root for a configured value: the trimmed value when it is not
/// blank, otherwise [`DEFAULT_API_ROOT`], without trailing slashes.
pub open spec fn api_root_spec(configured: Option<Seq<char>>) -> Seq<char> {
    match configured {
        Some(v) => match nonblank_spec(v) {
            Some(t) => trim_end_slashes(t),
            None => trim_end_slashes(DEFAULT_API_ROOT@),
        },
        None => trim_end_slashes(DEFAULT_API_ROOT@),
    }
}

/// The Frankfurter API root (no trailing slash) for the configured
/// `FRANKFURTER_URL` value, if any.
pub fn api_root(configured: Option<&str>) -> (r: String)
    ensures
        r@ == api_root_spec(crate::text::opt_view(configured)),
{
    let chosen: String = match configured {
        Some(v) => match trimmed_nonblank(v) {
            Some(t) => t,
            None => String::from_str(DEFAULT_API_ROOT),
        },
        None => String::from_str(DEFAULT_API_ROOT),
    };
    let v = chars_of(chosen.as_str());
    let mut n: usize = v.len();
    assert(v@.take(n as int) =~= v@);
    while n > 0 && v[n - 1] == '/'
        invariant
            n <= v.len(),
            trim_end_slashes(v@) == trim_end_slashes(v@.take(n as int)),
        decreases n,
    {
        assert(v@.take(n as int).drop_last() =~= v@.take(n - 1));
        n = n - 1;
    }
    let mut out: Vec<char> = Vec::new();
    let mut k: usize = 0;
    while k < n
        invariant
            k <= n <= v.len(),
            out@ == v@.take(k as int),
        decreases n - k,
    {
        out.push(v[k]);
        k = k + 1;
        assert(out@ =~= v@.take(k as int));
    }
    string_of(&out)
}

} // verus!
