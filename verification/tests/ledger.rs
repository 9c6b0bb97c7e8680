use finall::date::Date;
use finall::decimal::Decimal;
use finall::ledger::{
    date_part, day_subtotals, first_initial, group_by_date, long_date, month_label, row_display,
    some_if_set, trim_amount, RowSign,
};
use finall::transaction_types::{page_to_dto, record_to_dto, TransactionDto};
use finall::transactions::{TransactionListPage, TransactionRecord};

fn txn(date: &str, amount: &str, code: &str, transfer: bool) -> TransactionDto {
    TransactionDto {
        id: String::new(),
        account_id: String::new(),
        account_name: "Acct".to_owned(),
        account_type: "bank".to_owned(),
        account_default_asset_id: "eur".to_owned(),
        account_currency_code: "EUR".to_owned(),
        amount: amount.to_owned(),
        account_amount: Some(amount.to_owned()),
        fx_rate: None,
        asset_id: "eur".to_owned(),
        asset_code: code.to_owned(),
        booking_date: date.to_owned(),
        value_date: None,
        category_id: None,
        category_name: None,
        merchant_id: None,
        merchant_name: None,
        transfer_id: if transfer { Some("t".to_owned()) } else { None },
        transfer_counterparty: None,
    }
}

#[test]
fn long_date_formats_or_falls_back() {
    assert_eq!(long_date("2026-01-05"), "January 5, 2026");
    assert_eq!(long_date("2026-12-31"), "December 31, 2026");
    assert_eq!(long_date("nonsense"), "nonsense");
    assert_eq!(long_date("2026-13-01"), "2026-13-01");
}

#[test]
fn trim_amount_keeps_two_decimals_and_drops_the_rest() {
    assert_eq!(trim_amount("100.000000000000000000"), "100.00");
    assert_eq!(trim_amount("1.2300"), "1.23");
    assert_eq!(trim_amount("-40.00"), "-40.00");
    assert_eq!(trim_amount("5"), "5.00");
    assert_eq!(trim_amount("1.2"), "1.20");
    assert_eq!(trim_amount("0.123456"), "0.123456");
}

#[test]
fn first_initial_takes_the_first_letter() {
    assert_eq!(first_initial("acme corp"), "A");
    assert_eq!(first_initial("  7-eleven"), "7");
    assert_eq!(first_initial("\u{2014}"), "?");
    assert_eq!(first_initial(""), "?");
}

#[test]
fn first_initial_uppercases_beyond_ascii() {
    assert_eq!(first_initial("  élan"), "É");
    assert_eq!(first_initial("-- ß"), "SS");
}

#[test]
fn group_by_date_keeps_consecutive_same_day_rows_together() {
    let rows = vec![
        txn("2026-01-16", "10", "EUR", false),
        txn("2026-01-16", "20", "EUR", false),
        txn("2026-01-15", "5", "EUR", false),
    ];
    let groups = group_by_date(rows);
    assert_eq!(groups.len(), 2);
    assert_eq!(groups[0].0, "2026-01-16");
    assert_eq!(groups[0].1.len(), 2);
    assert_eq!(groups[1].1.len(), 1);
}

#[test]
fn a_day_that_comes_back_opens_a_new_group() {
    let rows = vec![
        txn("2026-01-16", "1", "EUR", false),
        txn("2026-01-15", "2", "EUR", false),
        txn("2026-01-16", "3", "EUR", false),
    ];
    let groups = group_by_date(rows);
    assert_eq!(groups.len(), 3);
    assert_eq!(groups[2].1[0].amount, "3");
    assert!(group_by_date(vec![]).is_empty());
}

#[test]
fn day_subtotals_sum_per_currency_and_skip_transfers() {
    let rows = vec![
        txn("2026-01-16", "10.00", "EUR", false),
        txn("2026-01-16", "-2.50", "EUR", false),
        txn("2026-01-16", "100.00", "USD", false),
        txn("2026-01-16", "999.00", "EUR", true),
    ];
    let mut totals = day_subtotals(&rows).expect("in range");
    totals.sort();
    assert_eq!(
        totals,
        vec![("EUR".to_owned(), "7.50".to_owned()), ("USD".to_owned(), "100.00".to_owned())]
    );
}

#[test]
fn day_subtotals_keep_first_mention_order_and_skip_unparsable_amounts() {
    let rows = vec![
        txn("2026-01-16", "1", "USD", false),
        txn("2026-01-16", "oops", "EUR", false),
        txn("2026-01-16", "2.125", "EUR", false),
    ];
    assert_eq!(
        day_subtotals(&rows),
        Some(vec![("USD".to_owned(), "1.00".to_owned()), ("EUR".to_owned(), "2.125".to_owned())])
    );
}

#[test]
fn small_text_helpers() {
    assert_eq!(some_if_set(String::new()), None);
    assert_eq!(some_if_set("x".to_owned()), Some("x".to_owned()));
    assert_eq!(date_part("2026-01-05T10:00:00Z"), "2026-01-05");
    assert_eq!(date_part("2026-01-05"), "2026-01-05");
    assert_eq!(month_label("2026-01"), "Jan 2026");
    assert_eq!(month_label("2026-12"), "Dec 2026");
    assert_eq!(month_label("2026-13"), "2026-13");
    assert_eq!(month_label("soon"), "soon");
}

fn dec(s: &str) -> Decimal {
    Decimal::parse(s).expect("test decimal")
}

fn stored() -> TransactionRecord {
    TransactionRecord {
        id: 0x0193c0f0_1234_7abc_8def_0123456789ab,
        amount: dec("-12.50"),
        asset_id: 1,
        asset_code: "USD".to_owned(),
        account_id: 2,
        account_name: "Checking".to_owned(),
        account_type: "bank".to_owned(),
        account_default_asset_id: 3,
        account_currency_code: "EUR".to_owned(),
        account_amount: Some(dec("-11.40")),
        fx_rate: Some(dec("0.912")),
        booking_date: Date::from_ymd(2026, 1, 5).unwrap(),
        value_date: Some(Date::from_ymd(2026, 1, 6).unwrap()),
        category_id: None,
        category_name: None,
        merchant_id: Some(4),
        merchant_name: Some("Acme".to_owned()),
        transfer_id: None,
        transfer_counterparty: None,
    }
}

#[test]
fn a_stored_transaction_renders_as_text() {
    let dto = record_to_dto(&stored());
    assert_eq!(dto.id, "0193c0f0-1234-7abc-8def-0123456789ab");
    assert_eq!(dto.account_id, "00000000-0000-0000-0000-000000000002");
    assert_eq!(dto.amount, "-12.50");
    assert_eq!(dto.account_amount.as_deref(), Some("-11.40"));
    assert_eq!(dto.fx_rate.as_deref(), Some("0.912"));
    assert_eq!(dto.booking_date, "2026-01-05");
    assert_eq!(dto.value_date.as_deref(), Some("2026-01-06"));
    assert_eq!(dto.merchant_id.as_deref(), Some("00000000-0000-0000-0000-000000000004"));
    assert_eq!(dto.merchant_name.as_deref(), Some("Acme"));
    assert_eq!(dto.category_id, None);

    let page = TransactionListPage {
        records: vec![stored()],
        next: Some((Date::from_ymd(2026, 1, 5).unwrap(), 0x2a)),
    };
    let rendered = page_to_dto(&page);
    assert_eq!(rendered.transactions.len(), 1);
    assert_eq!(
        rendered.next_cursor.as_deref(),
        Some("2026-01-05_00000000-0000-0000-0000-00000000002a")
    );
}

#[test]
fn a_plain_expense_row_shows_merchant_minus_and_tidy_magnitude() {
    let mut t = txn("2026-01-05", "-12.500", "EUR", false);
    t.merchant_name = Some("bakery".to_owned());
    t.category_name = Some("Food".to_owned());
    let row = row_display(&t, false);
    assert_eq!(row.title, "bakery");
    assert_eq!(row.initial, Some("B".to_owned()));
    assert_eq!(row.meta, "");
    assert_eq!(row.category, "Food");
    assert_eq!(row.sign, RowSign::Negative);
    assert_eq!(row.sign.glyph(), "\u{2212}");
    assert_eq!(row.magnitude, "12.50");
    assert!(!row.pending);
    let shown = row_display(&t, true);
    assert_eq!(shown.meta, "Acct");
}

#[test]
fn a_transfer_row_points_at_its_counterparty() {
    let mut t = txn("2026-01-05", "-40", "EUR", true);
    t.transfer_counterparty = Some("Savings".to_owned());
    let row = row_display(&t, true);
    assert_eq!(row.title, "Transfer");
    assert_eq!(row.initial, None);
    assert_eq!(row.meta, "\u{2192} Savings");
    assert_eq!(row.sign, RowSign::Transfer);
    assert_eq!(row.magnitude, "40.00");
    assert_eq!(row.category, "Uncategorized");
    let incoming = row_display(&txn("2026-01-05", "40", "EUR", true), false);
    assert_eq!(incoming.meta, "\u{2190} \u{2014}");
}

#[test]
fn a_foreign_row_shows_its_account_value_or_pending() {
    let mut t = txn("2026-01-05", "10", "USD", false);
    t.asset_id = "usd".to_owned();
    t.account_amount = Some("9.2000".to_owned());
    let row = row_display(&t, true);
    assert_eq!(row.meta, "Acct \u{00b7} 9.20 EUR");
    assert_eq!(row.sign, RowSign::Positive);
    assert_eq!(row.title, "\u{2014}");
    assert_eq!(row.initial, Some("?".to_owned()));
    t.account_amount = None;
    let pending = row_display(&t, false);
    assert_eq!(pending.meta, "conversion pending");
    assert!(pending.pending);
}
