//! Money flow: a 12-calendar-month income/expense trend ending at the month
//! of the caller's `to` date.
//!
//! Each month's income and expense magnitudes are valued the way a category
//! is valued in the income-vs-expense report: every day's subtotal converted
//! at that day's own booking-date rate, then summed into its month. A day
//! that is still pending its booking-date conversion, or whose rate is not
//! available, is left out and marks the trend incomplete.

use vstd::prelude::*;

use crate::assets::conversion::{convert, converted_spec};
use crate::assets::rates::{dup_rate_opt, ResolvedRate};
use crate::date::{months_before, months_before_spec, Date, MIN_YEAR};
use crate::decimal::{add_spec, dec, Decimal, Rounding};
use crate::income_expense::IncomeExpenseError;

verus! {

/// Rounding applied when a day's subtotal is converted.
pub const MONEY_FLOW_ROUNDING: Rounding = Rounding::HalfEven;

/// Why a money-flow report could not be produced.
#[derive(Debug, Clone, Copy, PartialEq, Eq)]
pub enum MoneyFlowError {
    Unauthorized,
    InvalidInput(&'static str),
    CurrencyNotFound,
    Internal,
}

impl MoneyFlowError {
    /// The user-facing message for this error.
    pub fn message(&self) -> (r: &'static str)
        ensures
            r@ == (match *self {
                MoneyFlowError::Unauthorized => "you must be signed in to do this"@,
                MoneyFlowError::InvalidInput(message) => message@,
                MoneyFlowError::CurrencyNotFound => "that display currency does not exist"@,
                MoneyFlowError::Internal => "something went wrong"@,
            }),
    {
        match self {
            MoneyFlowError::Unauthorized => "you must be signed in to do this",
            MoneyFlowError::InvalidInput(message) => message,
            MoneyFlowError::CurrencyNotFound => "that display currency does not exist",
            MoneyFlowError::Internal => "something went wrong",
        }
    }
}

/// The money-flow error an income-vs-expense error becomes.
pub open spec fn from_income_expense_spec(e: IncomeExpenseError) -> MoneyFlowError {
    match e {
        IncomeExpenseError::Unauthorized => MoneyFlowError::Unauthorized,
        IncomeExpenseError::InvalidInput(message) => MoneyFlowError::InvalidInput(message),
        IncomeExpenseError::CurrencyNotFound => MoneyFlowError::CurrencyNotFound,
        IncomeExpenseError::Internal => MoneyFlowError::Internal,
    }
}

impl From<IncomeExpenseError> for MoneyFlowError {
    fn from(err: IncomeExpenseError) -> (r: MoneyFlowError) {
        match err {
            IncomeExpenseError::Unauthorized => MoneyFlowError::Unauthorized,
            IncomeExpenseError::InvalidInput(message) => MoneyFlowError::InvalidInput(message),
            IncomeExpenseError::CurrencyNotFound => MoneyFlowError::CurrencyNotFound,
            IncomeExpenseError::Internal => MoneyFlowError::Internal,
        }
    }
}

impl vstd::std_specs::convert::FromSpecImpl<IncomeExpenseError> for MoneyFlowError {
    open spec fn obeys_from_spec() -> bool {
        true
    }

    open spec fn from_spec(v: IncomeExpenseError) -> MoneyFlowError {
        from_income_expense_spec(v)
    }
}

/// The currency the report is expressed in.
#[derive(Debug, Clone)]
pub struct DisplayCurrency {
    pub asset_id: u128,
    pub alphabetic_code: String,
    pub minor_units: i16,
}

/// One month's valued income and expense magnitudes.
#[derive(Debug, Clone)]
pub struct MonthFlow {
    /// First day of the month.
    pub month: Date,
    /// Sum of the month's positive amounts, valued.
    pub income: Decimal,
    /// Sum of the month's negative amounts, valued.
    pub expense: Decimal,
}

/// The whole report: the trailing 12-month trend, plus the `[from, to]`
/// totals.
#[derive(Debug, Clone)]
pub struct Report {
    pub display: DisplayCurrency,
    pub months: Vec<MonthFlow>,
    pub total_income: Decimal,
    pub total_expense: Decimal,
    pub net: Decimal,
    pub complete: bool,
}

/// One `(account currency, booking date)` day's income and expense
/// subtotals, unconverted.
#[derive(Debug, Clone)]
pub struct DatedFlow {
    pub account_asset_id: u128,
    pub account_currency_code: String,
    pub booking_date: Date,
    /// Sum of that day's positive account-currency amounts; `None` if none.
    pub income_subtotal: Option<Decimal>,
    /// Sum of that day's negative account-currency amounts; `None` if none.
    pub expense_subtotal: Option<Decimal>,
    /// Any transaction that day is still pending its booking-date conversion.
    pub pending: bool,
}

/// A booking-date rate the trend needs: one per `(asset, day)`.
#[derive(Debug, Clone)]
pub struct DayRateRequest {
    pub asset_id: u128,
    pub currency_code: String,
    pub booking_date: Date,
}

/// The outcome of resolving one [`DayRateRequest`]: `None` when no rate was
/// available for that day.
#[derive(Debug, Clone)]
pub struct DayRate {
    pub asset_id: u128,
    pub booking_date: Date,
    pub rate: Option<ResolvedRate>,
}

/// `(year, month)` of a date.
fn year_month(date: &Date) -> (r: (i32, u32))
    ensures
        r == (date.year, date.month),
{
    (date.year, date.month)
}

/// The first day of the `(year, month)` that lies `n` months before the
/// month of `anchor`.
pub open spec fn month_start_before(anchor: Date, n: int) -> Date {
    let ym = months_before_spec(anchor.year as int, anchor.month as int, n);
    Date { year: ym.0 as i32, month: ym.1 as u32, day: 1 }
}

/// The 12 calendar months ending at `anchor`'s month, oldest first, each as
/// the first day of that month.
pub fn trailing_months(anchor: &Date) -> (r: Vec<Date>)
    requires
        anchor.valid(),
        months_before_spec(anchor.year as int, anchor.month as int, 11).0 >= MIN_YEAR,
    ensures
        r@.len() == 12,
        forall|i: int| 0 <= i < 12 ==> (#[trigger] r@[i]) == month_start_before(*anchor, 11 - i),
        forall|i: int| 0 <= i < 12 ==> (#[trigger] r@[i]).valid(),
{
    let (year, month) = year_month(anchor);
    let mut out: Vec<Date> = Vec::new();
    let mut k: u32 = 0;
    while k < 12
        invariant
            k <= 12,
            year == anchor.year,
            month == anchor.month,
            anchor.valid(),
            months_before_spec(anchor.year as int, anchor.month as int, 11).0 >= MIN_YEAR,
            out@.len() == k,
            forall|i: int| 0 <= i < k ==> (#[trigger] out@[i]) == month_start_before(*anchor, 11 - i),
            forall|i: int| 0 <= i < k ==> (#[trigger] out@[i]).valid(),
        decreases 12 - k,
    {
        let (y, m) = months_before(year, month, 11 - k);
        proof {
            let z = anchor.year * 12 + anchor.month - 1;
            assert((z - 11) / 12 <= (z - (11 - k)) / 12) by (nonlinear_arith)
                requires
                    k <= 11,
            ;
        }
        out.push(Date { year: y, month: m, day: 1 });
        k = k + 1;
    }
    out
}

/// The first index of `months` whose `(year, month)` is `(y, m)`, among the
/// first `n`.
pub open spec fn find_month(months: Seq<Date>, y: int, m: int, n: nat) -> Option<int>
    decreases n,
{
    if n == 0 {
        None
    } else {
        match find_month(months, y, m, (n - 1) as nat) {
            Some(i) => Some(i),
            None => if months[n - 1].year == y && months[n - 1].month == m {
                Some(n - 1)
            } else {
                None
            },
        }
    }
}

/// The first resolved rate for `(asset, day)` among the first `n` entries,
/// or `None` when the table has no entry for it.
pub open spec fn find_day_rate(rates: Seq<DayRate>, asset: u128, day: Date, n: nat) -> Option<
    Option<ResolvedRate>,
>
    decreases n,
{
    if n == 0 {
        None
    } else {
        match find_day_rate(rates, asset, day, (n - 1) as nat) {
            Some(r) => Some(r),
            None => if rates[n - 1].asset_id == asset && rates[n - 1].booking_date == day {
                Some(rates[n - 1].rate)
            } else {
                None
            },
        }
    }
}

/// Whether a flow needs a booking-date rate: it lies in one of `months`, is
/// not pending, and is not already in the display currency.
pub open spec fn needs_rate(months: Seq<Date>, f: DatedFlow, display: DisplayCurrency) -> bool {
    &&& find_month(months, f.booking_date.year as int, f.booking_date.month as int, months.len()) is Some
    &&& !f.pending
    &&& f.account_asset_id != display.asset_id
}

/// Whether `(asset, day)` is among the requests `acc`.
pub open spec fn has_request(acc: Seq<(u128, Date, Seq<char>)>, asset: u128, day: Date) -> bool {
    exists|j: int| 0 <= j < acc.len() && acc[j].0 == asset && acc[j].1 == day
}

/// The distinct `(asset, day)` rates the first `n` flows need, in
/// first-mention order, each with the currency code of its first flow.
pub open spec fn requests_prefix(
    months: Seq<Date>,
    flows: Seq<DatedFlow>,
    display: DisplayCurrency,
    n: nat,
) -> Seq<(u128, Date, Seq<char>)>
    decreases n,
{
    if n == 0 {
        Seq::empty()
    } else {
        let acc = requests_prefix(months, flows, display, (n - 1) as nat);
        let f = flows[n - 1];
        if needs_rate(months, f, display) && !has_request(
            acc,
            f.account_asset_id,
            f.booking_date,
        ) {
            acc.push((f.account_asset_id, f.booking_date, f.account_currency_code@))
        } else {
            acc
        }
    }
}

/// The view of a request.
pub open spec fn request_view(r: DayRateRequest) -> (u128, Date, Seq<char>) {
    (r.asset_id, r.booking_date, r.currency_code@)
}

/// The first index of `months` with the `(year, month)` of `day`.
fn month_index(months: &Vec<Date>, day: &Date) -> (r: Option<usize>)
    ensures
        r matches Some(i) ==> find_month(months@, day.year as int, day.month as int, months@.len())
            == Some(i as int),
        r is None ==> find_month(months@, day.year as int, day.month as int, months@.len()) is None,
{
    let mut i: usize = 0;
    while i < months.len()
        invariant
            i <= months.len(),
            find_month(months@, day.year as int, day.month as int, i as nat) is None,
        decreases months.len() - i,
    {
        if months[i].year == day.year && months[i].month == day.month {
            proof {
                lemma_find_month_stays(months@, day.year as int, day.month as int, (i + 1) as nat, months@.len());
            }
            return Some(i);
        }
        i = i + 1;
    }
    None
}

proof fn lemma_find_month_stays(months: Seq<Date>, y: int, m: int, i: nat, n: nat)
    requires
        i <= n,
        find_month(months, y, m, i) is Some,
    ensures
        find_month(months, y, m, n) == find_month(months, y, m, i),
    decreases n - i,
{
    if i < n {
        lemma_find_month_stays(months, y, m, i, (n - 1) as nat);
    }
}

/// The distinct booking-date rates valuing `flows` into `display` needs, one
/// per `(asset, day)`, in the order the flows first mention them: the flows
/// that fall in one of `months`, are not pending, and are not already in the
/// display currency.
pub fn rate_requests(
    display: &DisplayCurrency,
    months: &Vec<Date>,
    flows: &Vec<DatedFlow>,
) -> (r: Vec<DayRateRequest>)
    ensures
        r@.map_values(|q: DayRateRequest| request_view(q)) == requests_prefix(
            months@,
            flows@,
            *display,
            flows@.len(),
        ),
{
    let mut out: Vec<DayRateRequest> = Vec::new();
    let mut i: usize = 0;
    assert(out@.map_values(|q: DayRateRequest| request_view(q)) =~= Seq::empty());
    while i < flows.len()
        invariant
            i <= flows.len(),
            out@.map_values(|q: DayRateRequest| request_view(q)) == requests_prefix(
                months@,
                flows@,
                *display,
                i as nat,
            ),
        decreases flows.len() - i,
    {
        let f = &flows[i];
        let ghost acc = requests_prefix(months@, flows@, *display, i as nat);
        let in_window = month_index(months, &f.booking_date).is_some();
        if in_window && !f.pending && f.account_asset_id != display.asset_id {
            let mut j: usize = 0;
            let mut found = false;
            while j < out.len()
                invariant
                    j <= out.len(),
                    acc == out@.map_values(|q: DayRateRequest| request_view(q)),
                    found == (exists|k: int|
                        0 <= k < j && acc[k].0 == f.account_asset_id && acc[k].1
                            == f.booking_date),
                decreases out.len() - j,
            {
                proof {
                    assert(acc[j as int] == request_view(out@[j as int]));
                }
                if out[j].asset_id == f.account_asset_id && out[j].booking_date.is_same(
                    &f.booking_date,
                ) {
                    found = true;
                }
                j = j + 1;
            }
            assert(found == has_request(acc, f.account_asset_id, f.booking_date));
            if !found {
                let q = DayRateRequest {
                    asset_id: f.account_asset_id,
                    currency_code: f.account_currency_code.clone(),
                    booking_date: f.booking_date,
                };
                out.push(q);
                assert(out@.map_values(|q: DayRateRequest| request_view(q)) =~= acc.push(
                    request_view(q),
                ));
            }
        }
        i = i + 1;
    }
    out
}

/// A day's subtotal in the display currency: as it stands when the day is
/// already in it, else converted at `rate`; `None` when the conversion is
/// rejected.
pub open spec fn day_value(
    amount: Decimal,
    f: DatedFlow,
    display: DisplayCurrency,
    rate: Option<ResolvedRate>,
) -> Option<Decimal> {
    match rate {
        None => Some(amount),
        Some(r) => match converted_spec(
            amount,
            r.rate,
            f.account_asset_id,
            display.asset_id,
            display.minor_units,
            MONEY_FLOW_ROUNDING,
        ) {
            Ok(c) => Some(c),
            Err(_) => None,
        },
    }
}

/// `acc` plus the valued `part`, if there is one.
pub open spec fn add_part(
    acc: Decimal,
    part: Option<Decimal>,
    f: DatedFlow,
    display: DisplayCurrency,
    rate: Option<ResolvedRate>,
) -> Option<Decimal> {
    match part {
        None => Some(acc),
        Some(a) => match day_value(a, f, display, rate) {
            None => None,
            Some(v) => add_spec(acc, v),
        },
    }
}

/// A bucket after adding one day's income and expense.
pub open spec fn bucket_step(
    b: (Decimal, Decimal),
    f: DatedFlow,
    display: DisplayCurrency,
    rate: Option<ResolvedRate>,
) -> Option<(Decimal, Decimal)> {
    match add_part(b.0, f.income_subtotal, f, display, rate) {
        None => None,
        Some(i) => match add_part(b.1, f.expense_subtotal, f, display, rate) {
            None => None,
            Some(e) => Some((i, e)),
        },
    }
}

/// The per-month `(income, expense)` sums and the completeness flag after the
/// first `n` flows, or `None` when a conversion is rejected or a sum leaves
/// scales too far apart to align in an `i64`.
pub open spec fn flow_prefix(
    months: Seq<Date>,
    flows: Seq<DatedFlow>,
    display: DisplayCurrency,
    rates: Seq<DayRate>,
    n: nat,
) -> Option<(Seq<(Decimal, Decimal)>, bool)>
    decreases n,
{
    if n == 0 {
        Some(
            (
                Seq::new(
                    months.len(),
                    |i: int| (dec(0, 0), dec(0, 0)),
                ),
                true,
            ),
        )
    } else {
        match flow_prefix(months, flows, display, rates, (n - 1) as nat) {
            None => None,
            Some(acc) => {
                let f = flows[n - 1];
                match find_month(
                    months,
                    f.booking_date.year as int,
                    f.booking_date.month as int,
                    months.len(),
                ) {
                    None => Some(acc),
                    Some(i) => if f.pending {
                        Some((acc.0, false))
                    } else if f.account_asset_id == display.asset_id {
                        match bucket_step(acc.0[i], f, display, None) {
                            None => None,
                            Some(s) => Some((acc.0.update(i, s), acc.1)),
                        }
                    } else {
                        match find_day_rate(
                            rates,
                            f.account_asset_id,
                            f.booking_date,
                            rates.len(),
                        ) {
                            Some(Some(r)) => match bucket_step(acc.0[i], f, display, Some(r)) {
                                None => None,
                                Some(s) => Some((acc.0.update(i, s), acc.1)),
                            },
                            _ => Some((acc.0, false)),
                        }
                    },
                }
            },
        }
    }
}

proof fn lemma_flow_none_sticks(
    months: Seq<Date>,
    flows: Seq<DatedFlow>,
    display: DisplayCurrency,
    rates: Seq<DayRate>,
    i: nat,
    n: nat,
)
    requires
        i <= n,
        flow_prefix(months, flows, display, rates, i) is None,
    ensures
        flow_prefix(months, flows, display, rates, n) is None,
    decreases n - i,
{
    if i < n {
        lemma_flow_none_sticks(months, flows, display, rates, i + 1, n);
    }
}

/// The rate a flow is valued at, when it can be valued: none needed in the
/// display currency, else its `(asset, day)` resolved rate.
pub open spec fn flow_rate(f: DatedFlow, display: DisplayCurrency, rates: Seq<DayRate>) -> Option<
    Option<ResolvedRate>,
> {
    if f.account_asset_id == display.asset_id {
        Some(None)
    } else {
        match find_day_rate(rates, f.account_asset_id, f.booking_date, rates.len()) {
            Some(Some(r)) => Some(Some(r)),
            _ => None,
        }
    }
}

/// The running total, over the first `n` flows, of the valued income
/// (`income`) or expense subtotals of the flows booked in month `i` that
/// can be valued (not pending, with a rate when one is needed); `None` when
/// a conversion is rejected or a sum cannot be formed.
pub open spec fn month_total(
    months: Seq<Date>,
    flows: Seq<DatedFlow>,
    display: DisplayCurrency,
    rates: Seq<DayRate>,
    i: int,
    income: bool,
    n: nat,
) -> Option<Decimal>
    decreases n,
{
    if n == 0 {
        Some(dec(0, 0))
    } else {
        match month_total(months, flows, display, rates, i, income, (n - 1) as nat) {
            None => None,
            Some(t) => {
                let f = flows[n - 1];
                let counted = find_month(
                    months,
                    f.booking_date.year as int,
                    f.booking_date.month as int,
                    months.len(),
                ) == Some(i) && !f.pending && flow_rate(f, display, rates) is Some;
                let part = if income {
                    f.income_subtotal
                } else {
                    f.expense_subtotal
                };
                if counted && part is Some {
                    match day_value(part->0, f, display, flow_rate(f, display, rates)->0) {
                        None => None,
                        Some(v) => add_spec(t, v),
                    }
                } else {
                    Some(t)
                }
            },
        }
    }
}

/// Each month's income (expense) is the running sum, from zero and in flow
/// order, of the valued income (expense) subtotals of the countable flows
/// booked in that month: a flow adds its valued amount to its month's
/// previous total and leaves every other month as it was.
pub proof fn lemma_buckets_are_month_sums(
    months: Seq<Date>,
    flows: Seq<DatedFlow>,
    display: DisplayCurrency,
    rates: Seq<DayRate>,
    n: nat,
)
    requires
        n <= flows.len(),
        flow_prefix(months, flows, display, rates, n) is Some,
    ensures
        forall|i: int|
            0 <= i < months.len() ==> month_total(months, flows, display, rates, i, true, n) == Some(
                (#[trigger] (flow_prefix(months, flows, display, rates, n)->0).0[i]).0,
            ) && month_total(months, flows, display, rates, i, false, n) == Some(
                (flow_prefix(months, flows, display, rates, n)->0).0[i].1,
            ),
    decreases n,
{
    lemma_flow_len(months, flows, display, rates, n);
    if n > 0 {
        if flow_prefix(months, flows, display, rates, (n - 1) as nat) is None {
            lemma_flow_none_sticks(months, flows, display, rates, (n - 1) as nat, n);
        }
        lemma_buckets_are_month_sums(months, flows, display, rates, (n - 1) as nat);
        lemma_flow_len(months, flows, display, rates, (n - 1) as nat);
        let acc = flow_prefix(months, flows, display, rates, (n - 1) as nat)->0;
        let b = flow_prefix(months, flows, display, rates, n)->0;
        let f = flows[n - 1];
        let fm = find_month(months, f.booking_date.year as int, f.booking_date.month as int, months.len());
        lemma_find_month_bound(months, f.booking_date.year as int, f.booking_date.month as int, months.len());
        assert forall|i: int| 0 <= i < months.len() implies month_total(
            months,
            flows,
            display,
            rates,
            i,
            true,
            n,
        ) == Some((#[trigger] b.0[i]).0) && month_total(months, flows, display, rates, i, false, n)
            == Some(b.0[i].1) by {
            assert(month_total(months, flows, display, rates, i, true, (n - 1) as nat) == Some(acc.0[i].0));
            assert(month_total(months, flows, display, rates, i, false, (n - 1) as nat) == Some(acc.0[i].1));
        }
    }
}

/// Whether flow `f` is fully valued: outside every bucket month, or not
/// pending and either already in the display currency or with a resolved
/// booking-date rate.
pub open spec fn flow_valued(
    months: Seq<Date>,
    f: DatedFlow,
    display: DisplayCurrency,
    rates: Seq<DayRate>,
) -> bool {
    ||| find_month(months, f.booking_date.year as int, f.booking_date.month as int, months.len()) is None
    ||| (!f.pending && (f.account_asset_id == display.asset_id || find_day_rate(
        rates,
        f.account_asset_id,
        f.booking_date,
        rates.len(),
    ) matches Some(Some(_))))
}

/// A successful bucketing is complete exactly when every flow is fully
/// valued.
pub proof fn lemma_flow_complete(
    months: Seq<Date>,
    flows: Seq<DatedFlow>,
    display: DisplayCurrency,
    rates: Seq<DayRate>,
    n: nat,
)
    requires
        n <= flows.len(),
        flow_prefix(months, flows, display, rates, n) is Some,
    ensures
        (flow_prefix(months, flows, display, rates, n)->0).1 <==> forall|k: int|
            0 <= k < n ==> flow_valued(months, #[trigger] flows[k], display, rates),
    decreases n,
{
    if n > 0 {
        if flow_prefix(months, flows, display, rates, (n - 1) as nat) is None {
            lemma_flow_none_sticks(months, flows, display, rates, (n - 1) as nat, n);
        }
        lemma_flow_complete(months, flows, display, rates, (n - 1) as nat);
        let a = flow_prefix(months, flows, display, rates, (n - 1) as nat)->0;
        let b = flow_prefix(months, flows, display, rates, n)->0;
        if !b.1 {
            if a.1 {
                assert(!flow_valued(months, flows[n - 1], display, rates));
            } else {
                let w = choose|k: int|
                    0 <= k < n - 1 && !flow_valued(months, #[trigger] flows[k], display, rates);
                assert(0 <= w < n);
            }
        }
    }
}

/// The requests of the first `n` flows name each `(asset, day)` once, and
/// every flow that needs a rate has its `(asset, day)` among them: one rate
/// lookup per `(asset, day)`.
pub proof fn lemma_requests_distinct_and_cover(
    months: Seq<Date>,
    flows: Seq<DatedFlow>,
    display: DisplayCurrency,
    n: nat,
)
    requires
        n <= flows.len(),
    ensures
        forall|i: int, j: int|
            0 <= i < j < requests_prefix(months, flows, display, n).len() ==> !((#[trigger] requests_prefix(
                months,
                flows,
                display,
                n,
            )[i]).0 == (#[trigger] requests_prefix(months, flows, display, n)[j]).0
                && requests_prefix(months, flows, display, n)[i].1 == requests_prefix(
                months,
                flows,
                display,
                n,
            )[j].1),
        forall|k: int|
            0 <= k < n && needs_rate(months, #[trigger] flows[k], display) ==> has_request(
                requests_prefix(months, flows, display, n),
                flows[k].account_asset_id,
                flows[k].booking_date,
            ),
    decreases n,
{
    if n > 0 {
        lemma_requests_distinct_and_cover(months, flows, display, (n - 1) as nat);
        let acc = requests_prefix(months, flows, display, (n - 1) as nat);
        let r = requests_prefix(months, flows, display, n);
        let f = flows[n - 1];
        if needs_rate(months, f, display) && !has_request(acc, f.account_asset_id, f.booking_date) {
            assert forall|i: int, j: int| 0 <= i < j < r.len() implies !((#[trigger] r[i]).0 == (
            #[trigger] r[j]).0 && r[i].1 == r[j].1) by {
                assert(r[i] == acc[i]);
                if j < acc.len() {
                    assert(r[j] == acc[j]);
                } else {
                    if r[i].0 == r[j].0 && r[i].1 == r[j].1 {
                        assert(has_request(acc, f.account_asset_id, f.booking_date));
                    }
                }
            }
            assert forall|k: int| 0 <= k < n && needs_rate(months, #[trigger] flows[k], display)
                implies has_request(r, flows[k].account_asset_id, flows[k].booking_date) by {
                if k < n - 1 {
                    let w = choose|w: int|
                        0 <= w < acc.len() && acc[w].0 == flows[k].account_asset_id && acc[w].1
                            == flows[k].booking_date;
                    assert(r[w] == acc[w]);
                } else {
                    assert(r[acc.len() as int].0 == f.account_asset_id);
                }
            }
        } else {
            assert forall|k: int| 0 <= k < n && needs_rate(months, #[trigger] flows[k], display)
                implies has_request(r, flows[k].account_asset_id, flows[k].booking_date) by {
                if k < n - 1 {
                } else {
                    assert(has_request(acc, f.account_asset_id, f.booking_date));
                }
            }
        }
    }
}

/// The first entry of `rates` for `(asset, day)`.
fn day_rate(rates: &Vec<DayRate>, asset: u128, day: &Date) -> (r: Option<Option<ResolvedRate>>)
    ensures
        r == find_day_rate(rates@, asset, *day, rates@.len()),
{
    let mut i: usize = 0;
    while i < rates.len()
        invariant
            i <= rates.len(),
            find_day_rate(rates@, asset, *day, i as nat) is None,
        decreases rates.len() - i,
    {
        if rates[i].asset_id == asset && rates[i].booking_date.is_same(day) {
            proof {
                lemma_day_rate_stays(rates@, asset, *day, (i + 1) as nat, rates@.len());
            }
            return Some(dup_rate_opt(&rates[i].rate));
        }
        i = i + 1;
    }
    None
}

proof fn lemma_day_rate_stays(rates: Seq<DayRate>, asset: u128, day: Date, i: nat, n: nat)
    requires
        i <= n,
        find_day_rate(rates, asset, day, i) is Some,
    ensures
        find_day_rate(rates, asset, day, n) == find_day_rate(rates, asset, day, i),
    decreases n - i,
{
    if i < n {
        lemma_day_rate_stays(rates, asset, day, i, (n - 1) as nat);
    }
}

/// One of a day's subtotals in the display currency.
fn value_day(
    amount: &Decimal,
    f: &DatedFlow,
    display: &DisplayCurrency,
    rate: &Option<ResolvedRate>,
) -> (r: Option<Decimal>)
    ensures
        r == day_value(*amount, *f, *display, *rate),
{
    match rate {
        None => Some(amount.dup()),
        Some(rate) => match convert(
            amount,
            rate.rate.dup(),
            f.account_asset_id,
            display.asset_id,
            rate.valuation_timestamp,
            display.minor_units,
            MONEY_FLOW_ROUNDING,
        ) {
            Ok(c) => Some(c.converted_amount),
            Err(_) => None,
        },
    }
}

/// A bucket after adding one day's income and expense.
fn step_bucket(
    b: &(Decimal, Decimal),
    f: &DatedFlow,
    display: &DisplayCurrency,
    rate: &Option<ResolvedRate>,
) -> (r: Option<(Decimal, Decimal)>)
    ensures
        r == bucket_step(*b, *f, *display, *rate),
{
    let income = match &f.income_subtotal {
        None => b.0.dup(),
        Some(a) => match value_day(a, f, display, rate) {
            None => return None,
            Some(v) => match b.0.checked_add(&v) {
                None => return None,
                Some(t) => t,
            },
        },
    };
    let expense = match &f.expense_subtotal {
        None => b.1.dup(),
        Some(a) => match value_day(a, f, display, rate) {
            None => return None,
            Some(v) => match b.1.checked_add(&v) {
                None => return None,
                Some(t) => t,
            },
        },
    };
    Some((income, expense))
}

/// Value every dated flow into the display currency, at the booking-date
/// rate `rates` gives for its `(asset, day)`, and bucket the results into
/// `months`. Returns the bucketed months, in the order of `months`, and
/// whether every bucket was fully valued. A flow outside every month is
/// ignored; a pending flow, or one whose rate is missing or unavailable,
/// is left out and clears the flag; a rejected conversion, or a sum that
/// has terms with scales too far apart to align in an `i64`, is an
/// internal error.
pub fn value_and_bucket(
    display: &DisplayCurrency,
    months: &Vec<Date>,
    flows: &Vec<DatedFlow>,
    rates: &Vec<DayRate>,
) -> (r: Result<(Vec<MonthFlow>, bool), MoneyFlowError>)
    ensures
        r is Ok <==> flow_prefix(months@, flows@, *display, rates@, flows@.len()) is Some,
        r matches Ok(x) ==> {
            let b = flow_prefix(months@, flows@, *display, rates@, flows@.len())->0;
            &&& x.0@.len() == months@.len()
            &&& forall|i: int|
                0 <= i < months@.len() ==> (#[trigger] x.0@[i]).month == months@[i] && (
                x.0@[i].income, x.0@[i].expense) == b.0[i]
            &&& x.1 == b.1
        },
        r matches Err(e) ==> e == MoneyFlowError::Internal,
{
    let mut sums: Vec<(Decimal, Decimal)> = Vec::new();
    let mut k: usize = 0;
    while k < months.len()
        invariant
            k <= months.len(),
            sums@ == Seq::new(
                k as nat,
                |i: int| (dec(0, 0), dec(0, 0)),
            ),
        decreases months.len() - k,
    {
        sums.push((Decimal::zero(), Decimal::zero()));
        k = k + 1;
    }
    let mut complete = true;
    let mut i: usize = 0;
    while i < flows.len()
        invariant
            i <= flows.len(),
            flow_prefix(months@, flows@, *display, rates@, i as nat) == Some((sums@, complete)),
        decreases flows.len() - i,
    {
        let f = &flows[i];
        let ghost acc = sums@;
        match month_index(months, &f.booking_date) {
            None => {},
            Some(m) => {
                if f.pending {
                    complete = false;
                } else {
                    let rate = if f.account_asset_id == display.asset_id {
                        Some(None)
                    } else {
                        match day_rate(rates, f.account_asset_id, &f.booking_date) {
                            Some(Some(r)) => Some(Some(r)),
                            _ => None,
                        }
                    };
                    match rate {
                        None => {
                            complete = false;
                        },
                        Some(rate) => {
                            proof {
                                assert(flow_prefix(months@, flows@, *display, rates@, i as nat)
                                    == Some((acc, complete)));
                                assert(m < acc.len()) by {
                                    lemma_flow_len(months@, flows@, *display, rates@, i as nat);
                                    lemma_find_month_bound(
                                        months@,
                                        f.booking_date.year as int,
                                        f.booking_date.month as int,
                                        months@.len(),
                                    );
                                }
                            }
                            match step_bucket(&sums[m], f, display, &rate) {
                                None => {
                                    proof {
                                        lemma_flow_none_sticks(
                                            months@,
                                            flows@,
                                            *display,
                                            rates@,
                                            (i + 1) as nat,
                                            flows@.len(),
                                        );
                                    }
                                    return Err(MoneyFlowError::Internal);
                                },
                                Some(s) => {
                                    sums.set(m, s);
                                },
                            }
                        },
                    }
                }
            },
        }
        i = i + 1;
    }
    let ghost b = sums@;
    let mut out: Vec<MonthFlow> = Vec::new();
    let mut j: usize = 0;
    while j < months.len()
        invariant
            j <= months.len(),
            sums@ == b,
            flow_prefix(months@, flows@, *display, rates@, flows@.len()) == Some((b, complete)),
            out@.len() == j,
            forall|k: int|
                0 <= k < j ==> (#[trigger] out@[k]).month == months@[k] && (
                out@[k].income, out@[k].expense) == b[k],
        decreases months.len() - j,
    {
        proof {
            lemma_flow_len(months@, flows@, *display, rates@, flows@.len());
        }
        out.push(MonthFlow { month: months[j], income: sums[j].0.dup(), expense: sums[j].1.dup() });
        j = j + 1;
    }
    Ok((out, complete))
}

proof fn lemma_find_month_bound(months: Seq<Date>, y: int, m: int, n: nat)
    requires
        n <= months.len(),
    ensures
        find_month(months, y, m, n) matches Some(i) ==> 0 <= i < n,
    decreases n,
{
    if n > 0 {
        lemma_find_month_bound(months, y, m, (n - 1) as nat);
    }
}

proof fn lemma_flow_len(
    months: Seq<Date>,
    flows: Seq<DatedFlow>,
    display: DisplayCurrency,
    rates: Seq<DayRate>,
    n: nat,
)
    ensures
        flow_prefix(months, flows, display, rates, n) matches Some(acc) ==> acc.0.len()
            == months.len(),
    decreases n,
{
    if n > 0 {
        lemma_flow_len(months, flows, display, rates, (n - 1) as nat);
        lemma_find_month_bound(
            months,
            flows[n - 1].booking_date.year as int,
            flows[n - 1].booking_date.month as int,
            months.len(),
        );
    }
}

} // verus!
