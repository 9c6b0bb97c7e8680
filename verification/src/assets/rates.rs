//! Exchange-rate derivation: combining the stored observations for a pair
//! into one "target units per source unit" rate (direct, reciprocal, or an
//! EUR pivot), plus the error and summary types of rate ingestion.

use vstd::prelude::*;

use crate::assets::frankfurter::{
    ref_view, rows_spec, validate_rate_rows, RateRow, ReferenceRate, MICROS_PER_DAY,
};
use crate::date::{chrono_parse_ymd, days_from_civil, Date};
use crate::text::str_eq;
use crate::decimal::{
    inverse_at_working_precision, inverse_spec, quotient_at_working_precision, quotient_spec,
    Decimal,
};

verus! {

/// The currency always fetched as a base: the cross-rate pivot.
pub const BASE_CODE: &'static str = "EUR";

/// Why an ingestion run could not complete.
#[derive(Debug, Clone, Copy, PartialEq, Eq)]
pub enum RatesError {
    Fetch,
    Parse(&'static str),
    Internal,
}

impl RatesError {
    /// The user-facing message for this error.
    pub fn message(&self) -> (r: &'static str)
        ensures
            r@ == (match *self {
                RatesError::Fetch => "could not reach the exchange-rate source"@,
                RatesError::Parse(message) => message@,
                RatesError::Internal => "something went wrong"@,
            }),
    {
        match self {
            RatesError::Fetch => "could not reach the exchange-rate source",
            RatesError::Parse(message) => message,
            RatesError::Internal => "something went wrong",
        }
    }
}

/// What one ingestion run did.
#[derive(Debug, Clone, Copy, PartialEq, Eq)]
pub struct IngestSummary {
    /// Rows newly written (an observation that already existed counts zero).
    pub inserted: u64,
    /// Base currencies whose fetch and store both completed.
    pub bases_ok: usize,
    /// Base currencies skipped this run after their fetch kept failing.
    pub bases_failed: usize,
}

/// Why a rate could not be resolved for a currency pair.
#[derive(Debug, Clone, Copy, PartialEq, Eq)]
pub enum RateResolutionError {
    Unavailable,
    Internal,
}

impl RateResolutionError {
    /// The user-facing message for this error.
    pub fn message(&self) -> (r: &'static str)
        ensures
            r@ == (match *self {
                RateResolutionError::Unavailable => "no exchange rate available to value this account"@,
                RateResolutionError::Internal => "something went wrong"@,
            }),
    {
        match self {
            RateResolutionError::Unavailable => "no exchange rate available to value this account",
            RateResolutionError::Internal => "something went wrong",
        }
    }
}

/// One stored observation for a currency pair: quote units per base unit,
/// and when it was observed (microseconds since the Unix epoch).
#[derive(Debug, Clone)]
pub struct RateObservation {
    pub rate: Decimal,
    pub observed_at: i64,
}

/// A resolved rate (target units per source unit) with the instant the
/// valuation is anchored to (microseconds since the Unix epoch).
#[derive(Debug, Clone)]
pub struct ResolvedRate {
    pub rate: Decimal,
    pub valuation_timestamp: i64,
}

impl RateObservation {
    /// A copy of this observation.
    pub fn dup(&self) -> (r: RateObservation)
        ensures
            r == *self,
    {
        RateObservation { rate: self.rate.dup(), observed_at: self.observed_at }
    }
}

impl ResolvedRate {
    /// A copy of this rate.
    pub fn dup(&self) -> (r: ResolvedRate)
        ensures
            r == *self,
    {
        ResolvedRate { rate: self.rate.dup(), valuation_timestamp: self.valuation_timestamp }
    }
}

/// A copy of an optional resolved rate.
pub fn dup_rate_opt(o: &Option<ResolvedRate>) -> (r: Option<ResolvedRate>)
    ensures
        r == *o,
{
    match o {
        Some(x) => Some(x.dup()),
        None => None,
    }
}

/// The earlier of two instants.
pub open spec fn min_i64(a: i64, b: i64) -> i64 {
    if a <= b {
        a
    } else {
        b
    }
}

/// The rate an inverse observation forms: its reciprocal, anchored to its
/// own instant; `None` when there is none or it cannot be inverted.
pub open spec fn inverse_step(inverse: Option<RateObservation>) -> Option<ResolvedRate> {
    match inverse {
        Some(i) => match inverse_spec(i.rate) {
            Some(r) => Some(ResolvedRate { rate: r, valuation_timestamp: i.observed_at }),
            None => None,
        },
        None => None,
    }
}

/// The rate the EUR pivot forms: `(EUR -> target) / (EUR -> source)`,
/// anchored to the earlier of the two legs; `None` when a leg is missing or
/// the quotient cannot be formed.
pub open spec fn pivot_step(
    pivot_to_source: Option<RateObservation>,
    pivot_to_target: Option<RateObservation>,
) -> Option<ResolvedRate> {
    match (pivot_to_source, pivot_to_target) {
        (Some(s), Some(t)) => match quotient_spec(t.rate, s.rate) {
            Some(r) => Some(
                ResolvedRate { rate: r, valuation_timestamp: min_i64(s.observed_at, t.observed_at) },
            ),
            None => None,
        },
        _ => None,
    }
}

/// The rate [`derive_rate`] forms: a direct observation as stored; else the
/// reciprocal of an inverse observation; else the EUR pivot. Each step is
/// taken only when the previous one cannot be formed (a zero observation is
/// never inverted or divided by); `None` when none can be formed.
pub open spec fn derive_spec(
    direct: Option<RateObservation>,
    inverse: Option<RateObservation>,
    pivot_to_source: Option<RateObservation>,
    pivot_to_target: Option<RateObservation>,
) -> Option<ResolvedRate> {
    match direct {
        Some(d) => Some(ResolvedRate { rate: d.rate, valuation_timestamp: d.observed_at }),
        None => match inverse_step(inverse) {
            Some(r) => Some(r),
            None => pivot_step(pivot_to_source, pivot_to_target),
        },
    }
}

/// Combine the observations available for a `source -> target` pair into a
/// single "target units per source unit" rate, with the precedence direct,
/// then inverse (reciprocated at 34 significant digits, half-even), then the
/// EUR pivot (quotient at 34 significant digits, half-even).
pub fn derive_rate(
    direct: Option<RateObservation>,
    inverse: Option<RateObservation>,
    pivot_to_source: Option<RateObservation>,
    pivot_to_target: Option<RateObservation>,
) -> (r: Option<ResolvedRate>)
    ensures
        r == derive_spec(direct, inverse, pivot_to_source, pivot_to_target),
{
    if let Some(direct) = direct {
        return Some(ResolvedRate { rate: direct.rate, valuation_timestamp: direct.observed_at });
    }
    if let Some(inverse) = inverse {
        if let Some(rate) = inverse_at_working_precision(&inverse.rate) {
            return Some(ResolvedRate { rate, valuation_timestamp: inverse.observed_at });
        }
    }
    let (pivot_to_source, pivot_to_target) = match (pivot_to_source, pivot_to_target) {
        (Some(s), Some(t)) => (s, t),
        _ => return None,
    };
    let valuation_timestamp = if pivot_to_source.observed_at <= pivot_to_target.observed_at {
        pivot_to_source.observed_at
    } else {
        pivot_to_target.observed_at
    };
    match quotient_at_working_precision(&pivot_to_target.rate, &pivot_to_source.rate) {
        Some(rate) => Some(ResolvedRate { rate, valuation_timestamp }),
        None => None,
    }
}

/// Whether some entry of `acc` indexes an id equal to `id`.
pub open spec fn mentions(ids: Seq<u128>, acc: Seq<int>, id: u128) -> bool {
    exists|j: int| 0 <= j < acc.len() && ids[#[trigger] acc[j]] == id
}

/// The positions, among the first `n` of `ids`, of the first mention of
/// each id other than `display`: the currencies a report must look a rate
/// up for, once each, in the order the report meets them.
pub open spec fn first_foreign(ids: Seq<u128>, display: u128, n: nat) -> Seq<int>
    decreases n,
{
    if n == 0 {
        Seq::empty()
    } else {
        let acc = first_foreign(ids, display, (n - 1) as nat);
        if ids[n - 1] != display && !mentions(ids, acc, ids[n - 1]) {
            acc.push(n - 1)
        } else {
            acc
        }
    }
}

/// The positions in `ids` of the first mention of each id other than
/// `display` ([`first_foreign`]).
pub fn foreign_first_mentions(ids: &Vec<u128>, display: u128) -> (r: Vec<usize>)
    ensures
        r@.map_values(|i: usize| i as int) == first_foreign(ids@, display, ids@.len()),
{
    let mut r: Vec<usize> = Vec::new();
    let mut i: usize = 0;
    assert(r@.map_values(|i: usize| i as int) =~= Seq::<int>::empty());
    while i < ids.len()
        invariant
            i <= ids.len(),
            r@.map_values(|i: usize| i as int) == first_foreign(ids@, display, i as nat),
            forall|j: int| 0 <= j < r@.len() ==> (#[trigger] r@[j]) < i,
        decreases ids.len() - i,
    {
        let ghost acc = first_foreign(ids@, display, i as nat);
        let id = ids[i];
        let mut seen = false;
        let mut k: usize = 0;
        while k < r.len()
            invariant
                k <= r@.len(),
                i < ids@.len(),
                id == ids@[i as int],
                acc == r@.map_values(|i: usize| i as int),
                forall|j: int| 0 <= j < r@.len() ==> (#[trigger] r@[j]) < i,
                seen <==> exists|j: int| 0 <= j < k && ids@[#[trigger] acc[j]] == id,
            decreases r.len() - k,
        {
            assert(acc[k as int] == r@[k as int] as int);
            if ids[r[k]] == id {
                seen = true;
            }
            k = k + 1;
        }
        let ghost before = r@;
        if id != display && !seen {
            r.push(i);
            assert(r@.map_values(|i: usize| i as int) =~= acc.push(i as int));
        }
        i = i + 1;
    }
    r
}

/// Parse a `/v2/rates` payload's decoded rows for `expected_base` into
/// validated rates: every row must carry that base, a valid date and a
/// positive decimal rate; a base self-quote is skipped; an empty payload is
/// rejected. The first bad row rejects the payload with
/// [`RatesError::Parse`].
pub fn parse_payload(rows: &Vec<RateRow>, expected_base: &str) -> (r: Result<
    Vec<ReferenceRate>,
    RatesError,
>)
    ensures
        r matches Ok(v) ==> rows_spec(rows@, expected_base@) == Ok::<
            Seq<(int, Seq<char>, Decimal)>,
            &'static str,
        >(v@.map_values(|x: ReferenceRate| ref_view(x))),
        r matches Err(e) ==> (e matches RatesError::Parse(m) && rows_spec(rows@, expected_base@)
            == Err::<Seq<(int, Seq<char>, Decimal)>, &'static str>(m)),
{
    match validate_rate_rows(rows, expected_base) {
        Ok(v) => Ok(v),
        Err(m) => Err(RatesError::Parse(m)),
    }
}

/// Interpret a `YYYY-MM-DD` reference date as the instant at `00:00:00Z`
/// (microseconds since the Unix epoch).
pub fn parse_reference_date(date: &str) -> (r: Result<i64, RatesError>)
    ensures
        match chrono_parse_ymd(date@) {
            None => r == Err::<i64, RatesError>(
                RatesError::Parse("exchange-rate response had an invalid reference date"),
            ),
            Some(t) => r == Ok::<i64, RatesError>(
                (days_from_civil(t.0, t.1, t.2) * MICROS_PER_DAY) as i64,
            ),
        },
{
    match Date::parse_iso(date) {
        None => Err(RatesError::Parse("exchange-rate response had an invalid reference date")),
        Some(d) => {
            let days = crate::date::civil_days(d.year, d.month, d.day);
            assert(-100_000_000 <= days <= 100_000_000) by (nonlinear_arith)
                requires
                    days == days_from_civil(d.year as int, d.month as int, d.day as int),
                    crate::date::MIN_YEAR <= d.year <= crate::date::MAX_YEAR,
                    1 <= d.month <= 12,
                    1 <= d.day <= 31,
            ;
            Ok(days * MICROS_PER_DAY)
        },
    }
}

/// How long to wait before retrying one base's fetch, in milliseconds, after
/// attempt number `attempt` (0-based) failed: a timeout or a server error is
/// retried twice, after 1 s and then 4 s; anything else, or a third failure,
/// gives up on the base for this run.
pub fn retry_delay_ms(retryable: bool, attempt: usize) -> (r: Option<u64>)
    ensures
        r == (if retryable && attempt == 0 {
            Some(1000u64)
        } else if retryable && attempt == 1 {
            Some(4000u64)
        } else {
            None::<u64>
        }),
{
    if !retryable {
        None
    } else if attempt == 0 {
        Some(1000)
    } else if attempt == 1 {
        Some(4000)
    } else {
        None
    }
}

/// The id the `(code, id)` list gives `code`: the last entry with that code,
/// among the first `n`, as a map collected from the list keeps.
pub open spec fn id_of_code(ids: Seq<(Seq<char>, u128)>, code: Seq<char>, n: nat) -> Option<u128>
    decreases n,
{
    if n == 0 {
        None
    } else if ids[n - 1].0 == code {
        Some(ids[n - 1].1)
    } else {
        id_of_code(ids, code, (n - 1) as nat)
    }
}

/// The `(code, id)` pairs of a list.
pub open spec fn code_texts(v: Seq<(String, u128)>) -> Seq<(Seq<char>, u128)> {
    v.map_values(|e: (String, u128)| (e.0@, e.1))
}

/// The `(quote id, observed_at, rate)` rows stored for the first `n` rates of
/// base `base_id`: a rate whose quote code names no active asset, or names
/// the base itself, is skipped.
pub open spec fn storable_prefix(
    base_id: u128,
    rates: Seq<ReferenceRate>,
    ids: Seq<(Seq<char>, u128)>,
    n: nat,
) -> Seq<(u128, i64, Decimal)>
    decreases n,
{
    if n == 0 {
        Seq::empty()
    } else {
        let acc = storable_prefix(base_id, rates, ids, (n - 1) as nat);
        let r = rates[n - 1];
        match id_of_code(ids, r.quote_code@, ids.len()) {
            None => acc,
            Some(q) => if q == base_id {
                acc
            } else {
                acc.push((q, r.observed_at, r.rate))
            },
        }
    }
}

/// The id `ids` gives `code`, the last matching entry winning.
fn lookup_code(ids: &Vec<(String, u128)>, code: &str) -> (r: Option<u128>)
    ensures
        r == id_of_code(code_texts(ids@), code@, ids@.len()),
{
    let ghost t = code_texts(ids@);
    let mut n: usize = ids.len();
    while n > 0
        invariant
            n <= ids@.len(),
            t == code_texts(ids@),
            id_of_code(t, code@, ids@.len()) == id_of_code(t, code@, n as nat),
        decreases n,
    {
        if str_eq(ids[n - 1].0.as_str(), code) {
            assert(t[n - 1].0 == ids@[n - 1].0@);
            return Some(ids[n - 1].1);
        }
        assert(t[n - 1].0 == ids@[n - 1].0@);
        n = n - 1;
    }
    None
}

/// The rows to store for one base's parsed rates: each rate whose quote code
/// resolves to an active asset other than the base, as `(quote id,
/// observed_at, rate)`, in order.
pub fn storable_rates(base_id: u128, rates: &Vec<ReferenceRate>, quote_ids: &Vec<(String, u128)>) -> (r:
    Vec<(u128, i64, Decimal)>)
    ensures
        r@ == storable_prefix(base_id, rates@, code_texts(quote_ids@), rates@.len()),
{
    let ghost ids = code_texts(quote_ids@);
    let mut out: Vec<(u128, i64, Decimal)> = Vec::new();
    let mut i: usize = 0;
    while i < rates.len()
        invariant
            i <= rates@.len(),
            ids == code_texts(quote_ids@),
            out@ == storable_prefix(base_id, rates@, ids, i as nat),
        decreases rates.len() - i,
    {
        let r = &rates[i];
        match lookup_code(quote_ids, r.quote_code.as_str()) {
            None => {},
            Some(q) => {
                if q != base_id {
                    out.push((q, r.observed_at, r.rate.dup()));
                }
            },
        }
        i = i + 1;
    }
    out
}

impl IngestSummary {
    /// Nothing fetched yet.
    pub fn new() -> (r: IngestSummary)
        ensures
            r == (IngestSummary { inserted: 0, bases_ok: 0, bases_failed: 0 }),
    {
        IngestSummary { inserted: 0, bases_ok: 0, bases_failed: 0 }
    }

    /// Count one base: `Some(n)` when its fetch and store completed with `n`
    /// rows newly written, `None` when it was skipped this run.
    pub fn record_base(&mut self, outcome: Option<u64>)
        requires
            old(self).bases_ok < usize::MAX,
            old(self).bases_failed < usize::MAX,
            outcome matches Some(n) ==> old(self).inserted + n <= u64::MAX,
        ensures
            *final(self) == match outcome {
                Some(n) => IngestSummary {
                    inserted: (old(self).inserted + n) as u64,
                    bases_ok: (old(self).bases_ok + 1) as usize,
                    ..*old(self)
                },
                None => IngestSummary {
                    bases_failed: (old(self).bases_failed + 1) as usize,
                    ..*old(self)
                },
            },
    {
        match outcome {
            Some(n) => {
                self.inserted = self.inserted + n;
                self.bases_ok = self.bases_ok + 1;
            },
            None => self.bases_failed = self.bases_failed + 1,
        }
    }
}

} // verus!
