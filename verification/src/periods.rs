//! Quick-pick relative periods and their resolution against an explicitly
//! given "today". Nothing here reads a clock: the caller supplies the date.

use vstd::prelude::*;

use crate::date::{
    days_back, days_from_civil, days_in_month, from_ymd_spec, iso_spec, lemma_days_back_count,
    lemma_pred_is_previous_day, months_before, months_before_spec, pred_spec, weekday_spec, Date,
};

verus! {

/// A quick-pick relative period, resolved against the server's current date.
#[derive(Clone, Copy, Debug, PartialEq, Eq)]
pub enum PeriodPreset {
    ThisWeek,
    Last7Days,
    ThisMonth,
    Last30Days,
    LastMonth,
    Last90Days,
}

/// The label each preset is shown with.
pub open spec fn label_spec(p: PeriodPreset) -> Seq<char> {
    match p {
        PeriodPreset::ThisWeek => "This week"@,
        PeriodPreset::Last7Days => "Last 7 days"@,
        PeriodPreset::ThisMonth => "This month"@,
        PeriodPreset::Last30Days => "Last 30 days"@,
        PeriodPreset::LastMonth => "Last month"@,
        PeriodPreset::Last90Days => "Last 90 days"@,
    }
}

impl PeriodPreset {
    /// Every variant, in display order.
    pub fn all() -> (r: [PeriodPreset; 6])
        ensures
            r@ == seq![
                PeriodPreset::ThisWeek,
                PeriodPreset::Last7Days,
                PeriodPreset::ThisMonth,
                PeriodPreset::Last30Days,
                PeriodPreset::LastMonth,
                PeriodPreset::Last90Days,
            ],
    {
        let r = [
            PeriodPreset::ThisWeek,
            PeriodPreset::Last7Days,
            PeriodPreset::ThisMonth,
            PeriodPreset::Last30Days,
            PeriodPreset::LastMonth,
            PeriodPreset::Last90Days,
        ];
        assert(r@ =~= seq![
            PeriodPreset::ThisWeek,
            PeriodPreset::Last7Days,
            PeriodPreset::ThisMonth,
            PeriodPreset::Last30Days,
            PeriodPreset::LastMonth,
            PeriodPreset::Last90Days,
        ]);
        r
    }

    /// A label for display in the UI.
    pub fn label(&self) -> (r: &'static str)
        ensures
            r@ == label_spec(*self),
    {
        match self {
            PeriodPreset::ThisWeek => "This week",
            PeriodPreset::Last7Days => "Last 7 days",
            PeriodPreset::ThisMonth => "This month",
            PeriodPreset::Last30Days => "Last 30 days",
            PeriodPreset::LastMonth => "Last month",
            PeriodPreset::Last90Days => "Last 90 days",
        }
    }
}

/// The resolved, inclusive `[from, to]` bounds for a preset, as
/// `YYYY-MM-DD` text.
#[derive(Clone, Debug, PartialEq)]
pub struct PeriodRangeDto {
    pub from: String,
    pub to: String,
}

/// Why a period could not be resolved.
#[derive(Debug, Clone, Copy, PartialEq, Eq)]
pub enum PeriodError {
    Unauthorized,
}

impl PeriodError {
    /// The user-facing message for this error.
    pub fn message(&self) -> (r: &'static str)
        ensures
            r@ == (match *self {
                PeriodError::Unauthorized => "you must be signed in to do this"@,
            }),
    {
        match self {
            PeriodError::Unauthorized => "you must be signed in to do this",
        }
    }
}

/// The inclusive `[from, to]` a preset covers relative to `today`, or `None`
/// when a bound would fall before the earliest representable date.
pub open spec fn resolve_spec(preset: PeriodPreset, today: Date) -> Option<(Date, Date)> {
    let ending_today = |n: nat|
        match days_back(today, n) {
            Some(f) => Some((f, today)),
            None => None,
        };
    match preset {
        PeriodPreset::ThisWeek => ending_today((weekday_spec(today) - 1) as nat),
        PeriodPreset::Last7Days => ending_today(6),
        PeriodPreset::ThisMonth => Some(
            (Date { year: today.year, month: today.month, day: 1 }, today),
        ),
        PeriodPreset::Last30Days => ending_today(29),
        PeriodPreset::LastMonth => {
            let ym = months_before_spec(today.year as int, today.month as int, 1);
            match (
                from_ymd_spec(ym.0, ym.1, 1),
                pred_spec(Date { year: today.year, month: today.month, day: 1 }),
            ) {
                (Some(start), Some(end)) => Some((start, end)),
                _ => None,
            }
        },
        PeriodPreset::Last90Days => ending_today(89),
    }
}

/// Resolve `preset`'s inclusive `[from, to]` bounds relative to `today`:
/// this week from its Monday, the last 7/30/90 days ending today, this month
/// from its 1st, or the whole previous calendar month.
pub fn resolve(preset: PeriodPreset, today: Date) -> (r: (Date, Date))
    requires
        today.valid(),
        resolve_spec(preset, today) is Some,
    ensures
        r == resolve_spec(preset, today)->0,
        r.0.valid() && r.1.valid(),
{
    match preset {
        PeriodPreset::ThisWeek => {
            let weekday = today.iso_weekday();
            (today.back(weekday - 1).unwrap(), today)
        },
        PeriodPreset::Last7Days => (today.back(6).unwrap(), today),
        PeriodPreset::ThisMonth => (today.first_of_month(), today),
        PeriodPreset::Last30Days => (today.back(29).unwrap(), today),
        PeriodPreset::LastMonth => {
            let (start_year, start_month) = months_before(today.year, today.month, 1);
            let start = Date::from_ymd(start_year, start_month, 1).unwrap();
            let end = today.first_of_month().pred().unwrap();
            (start, end)
        },
        PeriodPreset::Last90Days => (today.back(89).unwrap(), today),
    }
}

/// The `YYYY-MM-DD` bounds of `preset` relative to `today`.
pub fn period_range(preset: PeriodPreset, today: Date) -> (r: PeriodRangeDto)
    requires
        today.valid(),
        resolve_spec(preset, today) is Some,
    ensures
        r.from@ == iso_spec((resolve_spec(preset, today)->0).0),
        r.to@ == iso_spec((resolve_spec(preset, today)->0).1),
{
    let (from, to) = resolve(preset, today);
    PeriodRangeDto { from: from.iso_text(), to: to.iso_text() }
}

/// The count of days since the epoch of `d`.
pub open spec fn day_number(d: Date) -> int {
    days_from_civil(d.year as int, d.month as int, d.day as int)
}

/// What each preset promises of its range: the "last N days" presets are
/// inclusive windows of exactly N days ending today; "this week" runs from
/// the Monday of the current week to today; "this month" from the 1st to
/// today; "last month" is the whole previous calendar month, ending the day
/// before this month's 1st.
pub proof fn lemma_period_windows(preset: PeriodPreset, today: Date)
    requires
        today.valid(),
        resolve_spec(preset, today) is Some,
    ensures
        ({
            let w = resolve_spec(preset, today)->0;
            &&& w.0.valid() && w.1.valid()
            &&& match preset {
                PeriodPreset::Last7Days => w.1 == today && day_number(w.1) - day_number(w.0) == 6,
                PeriodPreset::Last30Days => w.1 == today && day_number(w.1) - day_number(w.0)
                    == 29,
                PeriodPreset::Last90Days => w.1 == today && day_number(w.1) - day_number(w.0)
                    == 89,
                PeriodPreset::ThisWeek => w.1 == today && weekday_spec(w.0) == 1 && 0 <= day_number(
                    w.1,
                ) - day_number(w.0) <= 6,
                PeriodPreset::ThisMonth => w.1 == today && w.0 == (Date {
                    year: today.year,
                    month: today.month,
                    day: 1,
                }),
                PeriodPreset::LastMonth => {
                    &&& w.0.day == 1
                    &&& w.1.year == w.0.year && w.1.month == w.0.month
                    &&& w.1.day == days_in_month(w.0.year as int, w.0.month as int)
                    &&& day_number(w.1) + 1 == day_number(
                        Date { year: today.year, month: today.month, day: 1 },
                    )
                },
            }
        }),
{
    match preset {
        PeriodPreset::Last7Days => lemma_days_back_count(today, 6),
        PeriodPreset::Last30Days => lemma_days_back_count(today, 29),
        PeriodPreset::Last90Days => lemma_days_back_count(today, 89),
        PeriodPreset::ThisWeek => {
            let w = weekday_spec(today);
            let x = day_number(today);
            lemma_days_back_count(today, (w - 1) as nat);
            assert(1 <= w <= 7);
            assert((x - (w - 1) + 3) % 7 == 0) by (nonlinear_arith)
                requires
                    w == (x + 3) % 7 + 1,
            ;
        },
        PeriodPreset::ThisMonth => {},
        PeriodPreset::LastMonth => {
            let first = Date { year: today.year, month: today.month, day: 1 };
            lemma_pred_is_previous_day(first);
        },
    }
}

} // verus!
