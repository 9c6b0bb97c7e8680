use std::collections::HashMap;

use finall::assets::rates::ResolvedRate;
use finall::categories::CategoryKind;
use finall::date::Date;
use finall::decimal::Decimal;
use finall::income_expense::{self, parse_period, summarise, CategorySubtotal, IncomeExpenseError};
use finall::money_flow::{self, rate_requests, trailing_months, value_and_bucket, DatedFlow, DayRate};
use finall::net_worth::{self, value_positions, Position};
use finall::periods::{period_range, resolve, PeriodPreset};

fn dec(s: &str) -> Decimal {
    Decimal::parse(s).expect("valid decimal literal")
}

fn date(y: i32, m: u32, d: u32) -> Date {
    Date::from_ymd(y, m, d).expect("valid test date")
}

fn at(secs: i64) -> i64 {
    secs * 1_000_000
}

fn eur() -> income_expense::DisplayCurrency {
    income_expense::DisplayCurrency { asset_id: 1, alphabetic_code: "EUR".to_owned(), minor_units: 2 }
}

fn rate(value: &str) -> ResolvedRate {
    ResolvedRate { rate: dec(value), valuation_timestamp: at(1_700_000_000) }
}

fn sub(
    category: Option<u128>,
    kind: Option<CategoryKind>,
    asset: u128,
    code: &str,
    amount: &str,
) -> CategorySubtotal {
    CategorySubtotal {
        category_id: category,
        category_name: category.map(|n| format!("Category {n}")),
        category_deleted: false,
        kind,
        asset_id: asset,
        currency_code: code.to_owned(),
        subtotal: dec(amount),
    }
}

#[test]
fn parse_period_accepts_a_valid_inclusive_range() {
    let (from, to) = parse_period("2026-01-01", "2026-01-31").expect("parses");
    assert_eq!(from, date(2026, 1, 1));
    assert_eq!(to, date(2026, 1, 31));
    assert!(parse_period("2026-02-15", "2026-02-15").is_ok());
}

#[test]
fn parse_period_requires_both_bounds() {
    assert!(matches!(
        parse_period("  ", "2026-01-31"),
        Err(IncomeExpenseError::InvalidInput("a start date is required"))
    ));
    assert!(matches!(
        parse_period("2026-01-01", ""),
        Err(IncomeExpenseError::InvalidInput("an end date is required"))
    ));
}

#[test]
fn parse_period_rejects_bad_format_and_reversed_range() {
    assert!(matches!(
        parse_period("01/01/2026", "2026-01-31"),
        Err(IncomeExpenseError::InvalidInput("a period date is invalid"))
    ));
    assert!(matches!(
        parse_period("2026-02-01", "2026-01-01"),
        Err(IncomeExpenseError::InvalidInput("the start date is after the end date"))
    ));
}

#[test]
fn no_subtotals_is_a_zero_complete_report() {
    let summary = summarise(&vec![], &eur(), &HashMap::new()).expect("summarises");
    assert!(summary.income_lines.is_empty());
    assert!(summary.expense_lines.is_empty());
    assert!(summary.unvalued_lines.is_empty());
    assert_eq!(summary.net, dec("0"));
    assert!(summary.complete);
}

#[test]
fn a_positive_net_lands_on_the_income_side() {
    let rows = vec![
        sub(Some(10), Some(CategoryKind::Income), 1, "EUR", "10"),
        sub(Some(10), Some(CategoryKind::Income), 1, "EUR", "-2"),
    ];
    let summary = summarise(&rows, &eur(), &HashMap::new()).expect("summarises");
    assert_eq!(summary.income_lines.len(), 1);
    assert_eq!(summary.income_lines[0].converted_net, Some(dec("8")));
    assert_eq!(summary.total_income, dec("8"));
    assert_eq!(summary.net, dec("8"));
    assert!(summary.expense_lines.is_empty());
}

#[test]
fn an_income_category_that_nets_negative_lands_on_the_expense_side() {
    let rows = vec![sub(Some(7), Some(CategoryKind::Income), 1, "EUR", "-30")];
    let summary = summarise(&rows, &eur(), &HashMap::new()).expect("summarises");
    assert_eq!(summary.expense_lines.len(), 1);
    assert_eq!(summary.expense_lines[0].category_kind, Some(CategoryKind::Income));
    assert_eq!(summary.total_expense, dec("-30"));
    assert_eq!(summary.net, dec("-30"));
}

#[test]
fn an_expense_category_that_nets_positive_lands_on_the_income_side() {
    let rows = vec![sub(Some(3), Some(CategoryKind::Expense), 1, "EUR", "50")];
    let summary = summarise(&rows, &eur(), &HashMap::new()).expect("summarises");
    assert_eq!(summary.income_lines.len(), 1);
    assert_eq!(summary.total_income, dec("50"));
}

#[test]
fn an_uncategorised_group_is_placed_by_its_sign() {
    let rows = vec![sub(None, None, 1, "EUR", "40")];
    let summary = summarise(&rows, &eur(), &HashMap::new()).expect("summarises");
    assert_eq!(summary.income_lines.len(), 1);
    assert_eq!(summary.income_lines[0].category_id, None);
    assert_eq!(summary.income_lines[0].category_kind, None);
}

#[test]
fn a_fully_valued_zero_net_group_is_omitted() {
    let rows = vec![
        sub(Some(5), Some(CategoryKind::Expense), 1, "EUR", "20"),
        sub(Some(5), Some(CategoryKind::Expense), 1, "EUR", "-20"),
    ];
    let summary = summarise(&rows, &eur(), &HashMap::new()).expect("summarises");
    assert!(summary.income_lines.is_empty());
    assert!(summary.expense_lines.is_empty());
    assert!(summary.unvalued_lines.is_empty());
    assert_eq!(summary.net, dec("0"));
}

#[test]
fn a_foreign_part_is_converted_and_rounded_to_minor_units() {
    let rows = vec![sub(Some(2), Some(CategoryKind::Income), 2, "USD", "100")];
    let resolved = HashMap::from([(2u128, rate("1.234"))]);
    let summary = summarise(&rows, &eur(), &resolved).expect("summarises");
    assert_eq!(summary.income_lines[0].converted_net, Some(dec("123.40")));
    assert_eq!(summary.total_income, dec("123.40"));
    assert_eq!(summary.income_lines[0].currencies[0].rate, Some(dec("1.234")));
    assert!(summary.complete);
}

#[test]
fn a_single_currency_group_with_no_rate_falls_back_to_its_native_sign() {
    let rows = vec![sub(Some(4), Some(CategoryKind::Expense), 2, "USD", "-100")];
    let summary = summarise(&rows, &eur(), &HashMap::new()).expect("summarises");
    assert_eq!(summary.expense_lines.len(), 1);
    assert_eq!(summary.expense_lines[0].converted_net, None);
    assert!(!summary.expense_lines[0].complete);
    assert!(!summary.complete);
    assert_eq!(summary.total_expense, dec("0"));
}

#[test]
fn a_multi_currency_group_can_be_partially_valued() {
    let rows = vec![
        sub(Some(6), Some(CategoryKind::Income), 1, "EUR", "120"),
        sub(Some(6), Some(CategoryKind::Income), 2, "USD", "50"),
    ];
    let summary = summarise(&rows, &eur(), &HashMap::new()).expect("summarises");
    assert_eq!(summary.income_lines.len(), 1);
    assert_eq!(summary.income_lines[0].converted_net, Some(dec("120")));
    assert!(!summary.income_lines[0].complete);
    assert_eq!(summary.income_lines[0].currencies.len(), 2);
    assert_eq!(summary.total_income, dec("120"));
    assert!(!summary.complete);
}

#[test]
fn a_multi_currency_group_with_nothing_valued_is_unvalued() {
    let rows = vec![
        sub(Some(8), Some(CategoryKind::Income), 2, "USD", "10"),
        sub(Some(8), Some(CategoryKind::Income), 3, "GBP", "-10"),
    ];
    let summary = summarise(&rows, &eur(), &HashMap::new()).expect("summarises");
    assert_eq!(summary.unvalued_lines.len(), 1);
    assert!(summary.income_lines.is_empty());
    assert!(summary.expense_lines.is_empty());
    assert!(!summary.complete);
}

#[test]
fn a_display_currency_part_contributes_exact_and_unrounded() {
    let rows = vec![sub(Some(9), Some(CategoryKind::Income), 1, "EUR", "10.005")];
    let summary = summarise(&rows, &eur(), &HashMap::new()).expect("summarises");
    assert_eq!(summary.total_income, dec("10.005"));
    assert_eq!(summary.net, dec("10.005"));
}

#[test]
fn income_and_expense_sum_into_the_net() {
    let rows = vec![
        sub(Some(1), Some(CategoryKind::Income), 1, "EUR", "100"),
        sub(Some(2), Some(CategoryKind::Expense), 1, "EUR", "-40.5"),
        sub(Some(3), Some(CategoryKind::Expense), 1, "EUR", "-9.5"),
    ];
    let summary = summarise(&rows, &eur(), &HashMap::new()).expect("summarises");
    assert_eq!(summary.total_income, dec("100"));
    assert_eq!(summary.total_expense, dec("-50"));
    assert_eq!(summary.net, dec("50"));
    assert_eq!(summary.expense_lines.len(), 2);
    assert_eq!(summary.expense_lines[0].category_name.as_deref(), Some("Category 2"));
}

fn nw_eur() -> net_worth::DisplayCurrency {
    net_worth::DisplayCurrency { asset_id: 1, alphabetic_code: "EUR".to_owned(), minor_units: 2 }
}

fn nw_rate(value: &str, secs: i64) -> ResolvedRate {
    ResolvedRate { rate: dec(value), valuation_timestamp: at(secs) }
}

fn position(asset: u128, code: &str, balance: &str) -> Position {
    Position { asset_id: asset, currency_code: code.to_owned(), balance: dec(balance) }
}

#[test]
fn no_positions_is_a_zero_complete_report() {
    let valuation = value_positions(&vec![], &nw_eur(), &HashMap::new()).expect("values");
    assert!(valuation.lines.is_empty());
    assert_eq!(valuation.total, dec("0"));
    assert!(valuation.complete);
    assert_eq!(valuation.rates_as_of, None);
}

#[test]
fn a_display_currency_position_is_exact_and_unrounded() {
    let positions = vec![position(1, "EUR", "10.005")];
    let valuation = value_positions(&positions, &nw_eur(), &HashMap::new()).expect("values");
    assert_eq!(valuation.total, dec("10.005"));
    assert!(valuation.complete);
    let line = &valuation.lines[0];
    assert!(line.is_display_currency);
    assert_eq!(line.converted_amount, Some(dec("10.005")));
    assert_eq!(line.rate, None);
    assert_eq!(line.valuation_timestamp, None);
}

#[test]
fn a_zero_display_currency_position_still_produces_a_line() {
    let positions = vec![position(1, "EUR", "0")];
    let valuation = value_positions(&positions, &nw_eur(), &HashMap::new()).expect("values");
    assert_eq!(valuation.lines.len(), 1);
    assert_eq!(valuation.total, dec("0"));
}

#[test]
fn a_foreign_position_is_converted_and_rounded_to_minor_units() {
    let positions = vec![position(2, "USD", "100")];
    let resolved = HashMap::from([(2u128, nw_rate("1.234", 1_700_000_000))]);
    let valuation = value_positions(&positions, &nw_eur(), &resolved).expect("values");
    assert_eq!(valuation.total, dec("123.40"));
    let line = &valuation.lines[0];
    assert_eq!(line.converted_amount, Some(dec("123.40")));
    assert_eq!(line.rate, Some(dec("1.234")));
    assert_eq!(line.valuation_timestamp, Some(at(1_700_000_000)));
    assert!(valuation.complete);
}

#[test]
fn a_negative_foreign_position_keeps_its_sign() {
    let positions = vec![position(2, "USD", "-50")];
    let resolved = HashMap::from([(2u128, nw_rate("2", 1_700_000_000))]);
    let valuation = value_positions(&positions, &nw_eur(), &resolved).expect("values");
    assert_eq!(valuation.total, dec("-100.00"));
}

#[test]
fn display_and_foreign_positions_are_summed() {
    let positions = vec![position(1, "EUR", "10"), position(2, "USD", "100"), position(3, "GBP", "5")];
    let resolved = HashMap::from([
        (2u128, nw_rate("1.25", 1_700_000_000)),
        (3u128, nw_rate("0.5", 1_700_000_000)),
    ]);
    let valuation = value_positions(&positions, &nw_eur(), &resolved).expect("values");
    assert_eq!(valuation.total, dec("137.50"));
    assert!(valuation.complete);
}

#[test]
fn a_missing_rate_makes_an_unvalued_line_and_an_incomplete_report() {
    let positions = vec![position(1, "EUR", "10"), position(2, "USD", "100")];
    let valuation = value_positions(&positions, &nw_eur(), &HashMap::new()).expect("values");
    assert_eq!(valuation.total, dec("10"));
    assert!(!valuation.complete);
    let usd = valuation.lines.iter().find(|line| line.currency_code == "USD").expect("a USD line");
    assert_eq!(usd.converted_amount, None);
    assert_eq!(usd.rate, None);
}

#[test]
fn rates_as_of_is_the_earliest_converted_timestamp() {
    let positions = vec![position(2, "USD", "1"), position(3, "GBP", "1"), position(4, "CHF", "1")];
    let resolved = HashMap::from([
        (2u128, nw_rate("1", 1_700_000_200)),
        (3u128, nw_rate("1", 1_700_000_100)),
        (4u128, nw_rate("1", 1_700_000_300)),
    ]);
    let valuation = value_positions(&positions, &nw_eur(), &resolved).expect("values");
    assert_eq!(valuation.rates_as_of, Some(at(1_700_000_100)));
}

#[test]
fn last_7_days_is_a_7_day_inclusive_window_ending_today() {
    let today = date(2026, 9, 14);
    let (from, to) = resolve(PeriodPreset::Last7Days, today);
    assert_eq!(to, today);
    assert_eq!(from, date(2026, 9, 8));
}

#[test]
fn last_30_days_is_a_30_day_inclusive_window_ending_today() {
    let today = date(2026, 9, 14);
    let (from, to) = resolve(PeriodPreset::Last30Days, today);
    assert_eq!(to, today);
    assert_eq!(from, date(2026, 8, 16));
}

#[test]
fn last_90_days_is_a_90_day_inclusive_window_ending_today() {
    let today = date(2026, 9, 14);
    let (from, to) = resolve(PeriodPreset::Last90Days, today);
    assert_eq!(to, today);
    assert_eq!(from, date(2026, 6, 17));
}

#[test]
fn this_week_is_a_no_op_when_today_is_a_monday() {
    let today = date(2024, 1, 1);
    let (from, to) = resolve(PeriodPreset::ThisWeek, today);
    assert_eq!(from, today);
    assert_eq!(to, today);
}

#[test]
fn this_week_starts_on_the_preceding_monday() {
    let today = date(2024, 1, 5);
    let (from, to) = resolve(PeriodPreset::ThisWeek, today);
    assert_eq!(from, date(2024, 1, 1));
    assert_eq!(to, today);
}

#[test]
fn this_month_starts_on_the_1st_and_ends_today() {
    let today = date(2026, 9, 14);
    let (from, to) = resolve(PeriodPreset::ThisMonth, today);
    assert_eq!(to, today);
    assert_eq!(from, date(2026, 9, 1));
}

#[test]
fn last_month_is_the_full_previous_calendar_month() {
    let today = date(2026, 9, 14);
    let (from, to) = resolve(PeriodPreset::LastMonth, today);
    assert_eq!(from, date(2026, 8, 1));
    assert_eq!(to, date(2026, 8, 31));
}

#[test]
fn last_month_rolls_back_across_a_year_boundary() {
    let today = date(2026, 1, 15);
    let (from, to) = resolve(PeriodPreset::LastMonth, today);
    assert_eq!(from, date(2025, 12, 1));
    assert_eq!(to, date(2025, 12, 31));
}

#[test]
fn every_preset_has_a_label_and_an_iso_range() {
    let labels: Vec<&str> = PeriodPreset::all().iter().map(|p| p.label()).collect();
    assert_eq!(
        labels,
        vec!["This week", "Last 7 days", "This month", "Last 30 days", "Last month", "Last 90 days"]
    );
    let range = period_range(PeriodPreset::LastMonth, date(2024, 3, 10));
    assert_eq!(range.from, "2024-02-01");
    assert_eq!(range.to, "2024-02-29");
}

fn mf_eur() -> money_flow::DisplayCurrency {
    money_flow::DisplayCurrency { asset_id: 1, alphabetic_code: "EUR".to_owned(), minor_units: 2 }
}

fn flow(asset: u128, code: &str, d: Date, income: Option<&str>, expense: Option<&str>) -> DatedFlow {
    DatedFlow {
        account_asset_id: asset,
        account_currency_code: code.to_owned(),
        booking_date: d,
        income_subtotal: income.map(dec),
        expense_subtotal: expense.map(dec),
        pending: false,
    }
}

#[test]
fn the_trend_covers_12_months_ending_at_the_anchor_month() {
    let months = trailing_months(&date(2026, 3, 20));
    assert_eq!(months.len(), 12);
    assert_eq!(months[0], date(2025, 4, 1));
    assert_eq!(months[11], date(2026, 3, 1));
}

#[test]
fn flows_land_in_their_own_month_and_foreign_ones_need_a_rate() {
    let months = trailing_months(&date(2026, 3, 20));
    let flows = vec![
        flow(1, "EUR", date(2026, 3, 2), Some("100"), Some("-30")),
        flow(2, "USD", date(2026, 2, 10), Some("10"), None),
        flow(2, "USD", date(2026, 2, 10), None, Some("-4")),
        flow(1, "EUR", date(2024, 1, 1), Some("999"), None),
    ];
    let requests = rate_requests(&mf_eur(), &months, &flows);
    assert_eq!(requests.len(), 1);
    assert_eq!(requests[0].asset_id, 2);
    assert_eq!(requests[0].booking_date, date(2026, 2, 10));

    let rates = vec![DayRate {
        asset_id: 2,
        booking_date: date(2026, 2, 10),
        rate: Some(ResolvedRate { rate: dec("0.5"), valuation_timestamp: 0 }),
    }];
    let (buckets, complete) = value_and_bucket(&mf_eur(), &months, &flows, &rates).expect("values");
    assert!(complete);
    assert_eq!(buckets[11].income, dec("100"));
    assert_eq!(buckets[11].expense, dec("-30"));
    assert_eq!(buckets[10].income, dec("5.00"));
    assert_eq!(buckets[10].expense, dec("-2.00"));
    assert_eq!(buckets[0].income, dec("0"));

    let (_, complete) = value_and_bucket(&mf_eur(), &months, &flows, &vec![]).expect("values");
    assert!(!complete);
}
