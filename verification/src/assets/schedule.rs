//! Timing of the background rate tasks: how long to wait from `now` until
//! the next run boundary. Instants are microseconds since the Unix epoch in
//! UTC; the caller passes `now`, nothing here reads a clock.

use vstd::prelude::*;

use crate::date::{
    chrono_instant, civil_days, days_from_civil, succ_spec, utc_date_of, Date, MAX_YEAR, MIN_YEAR,
};

verus! {

/// Microseconds in one day; also the wait used when the next midnight
/// cannot be represented.
pub const ONE_DAY_MICROS: u64 = 86_400_000_000;

/// Thirty days in microseconds; the wait used when the next month's start
/// cannot be represented.
pub const THIRTY_DAYS_MICROS: u64 = 2_592_000_000_000;

/// The instant of `00:00:00Z` on `d`.
pub open spec fn midnight_of(d: Date) -> int {
    days_from_civil(d.year as int, d.month as int, d.day as int) * 86_400_000_000
}

/// The wait from `now` to `target`, zero if it has passed.
pub open spec fn wait_until(now: int, target: int) -> int {
    if target >= now {
        target - now
    } else {
        0
    }
}

/// The instant of `00:00:00Z` on a valid day, in microseconds.
fn midnight_micros(d: Date) -> (r: i64)
    requires
        d.valid(),
    ensures
        r == midnight_of(d),
{
    let days = civil_days(d.year, d.month, d.day);
    assert(-100_000_000 <= days <= 100_000_000) by (nonlinear_arith)
        requires
            days == days_from_civil(d.year as int, d.month as int, d.day as int),
            MIN_YEAR <= d.year <= MAX_YEAR,
            1 <= d.month <= 12,
            1 <= d.day <= 31,
    ;
    days * 86_400_000_000
}

/// The wait from `now` to `target`, zero if it has passed.
fn wait(now: i64, target: i64) -> (r: u64)
    ensures
        r == wait_until(now as int, target as int),
{
    if target >= now {
        (target as i128 - now as i128) as u64
    } else {
        0
    }
}

/// The wait from `now`, which falls on `today`, until the next `00:00:00Z`;
/// a day when the next day cannot be represented.
pub open spec fn until_midnight_spec(now: int, today: Date) -> int {
    match succ_spec(today) {
        Some(next) => wait_until(now, midnight_of(next)),
        None => ONE_DAY_MICROS as int,
    }
}

/// The wait from `now`, which falls on `today`, until the next `00:00:00Z`;
/// a day when the next day cannot be represented.
pub fn until_next_midnight(now: i64, today: Date) -> (r: u64)
    requires
        today.valid(),
    ensures
        r == until_midnight_spec(now as int, today),
{
    match today.succ() {
        Some(next) => wait(now, midnight_micros(next)),
        None => ONE_DAY_MICROS,
    }
}

/// Time from `now` until the next `00:00:00Z` (tomorrow's midnight UTC).
/// Exact midnight is not special-cased: a run at `00:00` waits a whole day.
///
/// Every instant `chrono` can represent (every `DateTime<Utc>`) gets the exact
/// wait from its own UTC day; any other gets a day.
pub fn duration_until_next_utc_midnight(now: i64) -> (r: u64)
    ensures
        chrono_instant(now as int) ==> exists|today: Date|
            today.valid() && days_from_civil(today.year as int, today.month as int, today.day as int)
                == now as int / 86_400_000_000 && r == until_midnight_spec(now as int, today),
        !chrono_instant(now as int) ==> r == ONE_DAY_MICROS,
{
    match utc_date_of(now) {
        Some(today) => until_next_midnight(now, today),
        None => ONE_DAY_MICROS,
    }
}

/// The first day of the month after the one `d` falls in.
pub open spec fn next_month_start(d: Date) -> Date {
    if d.month == 12 {
        Date { year: (d.year + 1) as i32, month: 1, day: 1 }
    } else {
        Date { year: d.year, month: (d.month + 1) as u32, day: 1 }
    }
}

/// The wait from `now`, which falls on `today`, until `00:00:00Z` on the
/// first day of the next month; thirty days when that day cannot be
/// represented.
pub fn until_next_month_start(now: i64, today: Date) -> (r: u64)
    requires
        today.valid(),
    ensures
        next_month_start(today).valid() ==> r == wait_until(
            now as int,
            midnight_of(next_month_start(today)),
        ),
        !next_month_start(today).valid() ==> r == THIRTY_DAYS_MICROS,
{
    let (year, month) = if today.month == 12 {
        (today.year as i64 + 1, 1u32)
    } else {
        (today.year as i64, today.month + 1)
    };
    if year > MAX_YEAR as i64 {
        return THIRTY_DAYS_MICROS;
    }
    match Date::from_ymd(year as i32, month, 1) {
        Some(next) => wait(now, midnight_micros(next)),
        None => THIRTY_DAYS_MICROS,
    }
}

/// The wait from `now`, which falls on `today`, until `00:00:00Z` on the
/// first day of the next month; thirty days when that day cannot be
/// represented.
pub open spec fn until_month_start_spec(now: int, today: Date) -> int {
    if next_month_start(today).valid() {
        wait_until(now, midnight_of(next_month_start(today)))
    } else {
        THIRTY_DAYS_MICROS as int
    }
}

/// Time from `now` until `00:00:00Z` on the first day of the next month.
///
/// Every instant `chrono` can represent gets the exact wait from its own UTC
/// day; any other gets thirty days.
pub fn duration_until_next_month_start(now: i64) -> (r: u64)
    ensures
        chrono_instant(now as int) ==> exists|today: Date|
            today.valid() && days_from_civil(today.year as int, today.month as int, today.day as int)
                == now as int / 86_400_000_000 && r == until_month_start_spec(now as int, today),
        !chrono_instant(now as int) ==> r == THIRTY_DAYS_MICROS,
{
    match utc_date_of(now) {
        Some(today) => until_next_month_start(now, today),
        None => THIRTY_DAYS_MICROS,
    }
}

} // verus!
