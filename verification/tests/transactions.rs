use finall::assets::rates::ResolvedRate;
use finall::date::Date;
use finall::decimal::Decimal;
use finall::transactions::{
    compute_conversion, encode_cursor, page_of, parse_cursor, parse_optional_id, parse_write,
    resolve_dates, validate_amount, validate_booking_date, validate_date_range,
    validate_value_date, SourceAmount, TargetCurrency, TransactionError, TransactionRecord,
    PAGE_SIZE,
};
use uuid::Uuid;

fn dec(s: &str) -> Decimal {
    Decimal::parse(s).expect("test decimal")
}

fn day(y: i32, m: u32, d: u32) -> Date {
    Date::from_ymd(y, m, d).expect("test date")
}

#[test]
fn validate_amount_accepts_a_negative_value() {
    assert_eq!(validate_amount(" -25.50 ").expect("valid"), dec("-25.50"));
}

#[test]
fn validate_amount_rejects_zero() {
    assert!(validate_amount("0").is_err());
    assert!(validate_amount("0.00").is_err());
    assert!(validate_amount("-0.0").is_err());
}

#[test]
fn validate_amount_rejects_non_numeric() {
    assert!(validate_amount("").is_err());
    assert!(validate_amount("abc").is_err());
    assert!(validate_amount("1,00").is_err());
}

#[test]
fn validate_amount_rejects_too_many_decimal_places() {
    assert!(validate_amount("0.123456789012345678").is_ok());
    assert!(validate_amount("0.1234567890123456789").is_err());
}

#[test]
fn validate_amount_rejects_a_value_wider_than_the_column() {
    assert!(validate_amount("99999999999999999999").is_ok());
    assert!(validate_amount("100000000000000000000").is_err());
}

#[test]
fn validate_amount_names_each_reason() {
    assert_eq!(
        validate_amount("abc"),
        Err(TransactionError::InvalidInput("amount must be a number"))
    );
    assert_eq!(
        validate_amount("0"),
        Err(TransactionError::InvalidInput("amount must not be zero"))
    );
    assert_eq!(
        validate_amount("1.0000000000000000001"),
        Err(TransactionError::InvalidInput("amount has too many decimal places"))
    );
    assert_eq!(
        validate_amount("-100000000000000000000"),
        Err(TransactionError::InvalidInput("amount is too large"))
    );
    // Trailing zeros beyond the column scale are not extra precision.
    assert_eq!(validate_amount("1.50000000000000000000"), Ok(dec("1.5")));
    assert_eq!(validate_amount("1e2"), Ok(dec("100")));
}

#[test]
fn validate_value_date_treats_blank_as_absent() {
    assert_eq!(validate_value_date(None).expect("valid"), None);
    assert_eq!(validate_value_date(Some("   ")).expect("valid"), None);
    assert_eq!(
        validate_value_date(Some("2026-01-15")).expect("valid"),
        Some(day(2026, 1, 15))
    );
    assert!(validate_value_date(Some("15/01/2026")).is_err());
}

#[test]
fn validate_booking_date_requires_an_iso_day() {
    assert_eq!(validate_booking_date(" 2024-02-29 "), Ok(day(2024, 2, 29)));
    assert_eq!(
        validate_booking_date("2023-02-29"),
        Err(TransactionError::InvalidInput("booking date is invalid"))
    );
    assert!(validate_booking_date("").is_err());
}

#[test]
fn validate_date_range_accepts_open_and_closed_ranges() {
    assert_eq!(validate_date_range(None, None).expect("valid"), (None, None));
    assert_eq!(
        validate_date_range(Some("  "), Some("2026-01-31")).expect("valid"),
        (None, Some(day(2026, 1, 31)))
    );
    let (from, to) = validate_date_range(Some("2026-01-01"), Some("2026-01-01")).expect("valid");
    assert_eq!(from, to);
}

#[test]
fn validate_date_range_rejects_a_backwards_range_and_bad_dates() {
    assert!(validate_date_range(Some("2026-02-01"), Some("2026-01-01")).is_err());
    assert!(validate_date_range(Some("nonsense"), None).is_err());
}

#[test]
fn cursor_round_trips_and_rejects_garbage() {
    let id = Uuid::parse_str("0193c0f0-1234-7abc-8def-0123456789ab").unwrap().as_u128();
    let cursor = (day(2026, 1, 15), id);
    assert_eq!(parse_cursor(&encode_cursor(cursor)).expect("valid"), cursor);
    assert!(parse_cursor("not-a-cursor").is_err());
    assert!(parse_cursor("2026-01-15_not-a-uuid").is_err());
    assert!(parse_cursor("15-01-2026_00000000-0000-0000-0000-000000000000").is_err());
}

#[test]
fn cursor_text_is_the_iso_day_and_the_hyphenated_id() {
    let id = Uuid::parse_str("0193c0f0-1234-7abc-8def-0123456789ab").unwrap().as_u128();
    assert_eq!(
        encode_cursor((day(2026, 1, 5), id)),
        "2026-01-05_0193c0f0-1234-7abc-8def-0123456789ab"
    );
    // Another day and id round-trip too, years below 1000 included.
    let cursor = (day(999, 12, 31), 0);
    assert_eq!(encode_cursor(cursor), "0999-12-31_00000000-0000-0000-0000-000000000000");
    assert_eq!(parse_cursor(&encode_cursor(cursor)), Ok(cursor));
    assert_eq!(
        parse_cursor("2026-01-15"),
        Err(TransactionError::InvalidInput("invalid page cursor"))
    );
}

#[test]
fn resolve_dates_collapses_cash_and_rejects_a_backwards_value_date() {
    let booking = day(2026, 1, 15);
    let earlier = day(2026, 1, 10);
    let later = day(2026, 1, 20);

    assert_eq!(resolve_dates(booking, Some(later), true).unwrap(), (booking, Some(booking)));
    assert_eq!(resolve_dates(booking, None, true).unwrap(), (booking, Some(booking)));
    assert_eq!(resolve_dates(booking, None, false).unwrap(), (booking, None));
    assert_eq!(
        resolve_dates(booking, Some(booking), false).unwrap(),
        (booking, Some(booking))
    );
    assert_eq!(resolve_dates(booking, Some(later), false).unwrap(), (booking, Some(later)));
    assert!(matches!(
        resolve_dates(booking, Some(earlier), false),
        Err(TransactionError::InvalidInput(_))
    ));
}

#[test]
fn optional_ids_are_blank_or_uuids() {
    let text = "0193c0f0-1234-7abc-8def-0123456789ab";
    let id = Uuid::parse_str(text).unwrap().as_u128();
    assert_eq!(parse_optional_id("  ", "bad"), Ok(None));
    assert_eq!(parse_optional_id(&format!(" {text} "), "bad"), Ok(Some(id)));
    assert_eq!(
        parse_optional_id("xyz", "bad"),
        Err(TransactionError::InvalidInput("bad"))
    );
}

#[test]
fn parse_write_checks_fields_in_form_order() {
    let asset = "00000000-0000-0000-0000-000000000007";
    let write = parse_write(asset, "12.5", "2024-03-01", Some(""), "", "").expect("valid");
    assert_eq!(write.asset_id, 7);
    assert_eq!(write.amount, dec("12.50"));
    assert_eq!(write.booking_date, day(2024, 3, 1));
    assert_eq!(write.value_date, None);
    assert_eq!(
        parse_write("x", "0", "bad", None, "bad", "bad").unwrap_err(),
        TransactionError::InvalidInput("invalid currency id")
    );
    assert_eq!(
        parse_write(asset, "0", "bad", None, "", "").unwrap_err(),
        TransactionError::InvalidInput("amount must not be zero")
    );
    assert_eq!(
        parse_write(asset, "1", "2024-03-01", None, "", "nope").unwrap_err(),
        TransactionError::InvalidInput("invalid merchant id")
    );
}

fn record(id: u128, d: Date) -> TransactionRecord {
    TransactionRecord {
        id,
        amount: dec("1"),
        asset_id: 1,
        asset_code: "EUR".to_owned(),
        account_id: 2,
        account_name: "Checking".to_owned(),
        account_type: "bank".to_owned(),
        account_default_asset_id: 1,
        account_currency_code: "EUR".to_owned(),
        account_amount: Some(dec("1")),
        fx_rate: None,
        booking_date: d,
        value_date: None,
        category_id: None,
        category_name: None,
        merchant_id: None,
        merchant_name: None,
        transfer_id: None,
        transfer_counterparty: None,
    }
}

#[test]
fn a_page_keeps_page_size_rows_and_points_past_the_last() {
    let rows: Vec<TransactionRecord> =
        (0..=PAGE_SIZE as u128).map(|i| record(i, day(2024, 1, 1))).collect();
    let page = page_of(rows);
    assert_eq!(page.records.len(), PAGE_SIZE);
    assert_eq!(page.next, Some((day(2024, 1, 1), PAGE_SIZE as u128 - 1)));

    let short = page_of(vec![record(1, day(2024, 1, 2))]);
    assert_eq!(short.records.len(), 1);
    assert_eq!(short.next, None);
}

#[test]
fn compute_conversion_covers_same_currency_pending_and_converted() {
    let source = SourceAmount { asset_id: 1, amount: dec("10") };
    let same = TargetCurrency { asset_id: 1, minor_units: 2 };
    let rate = ResolvedRate { rate: dec("1.5"), valuation_timestamp: 1_700_000_000_000_000 };
    assert_eq!(
        compute_conversion(source.clone(), same, Some(rate.clone())),
        Ok((Some(dec("10")), None, None))
    );
    let other = TargetCurrency { asset_id: 2, minor_units: 2 };
    assert_eq!(compute_conversion(source.clone(), other, None), Ok((None, None, None)));
    let (amount, fx, fx_day) = compute_conversion(source.clone(), other, Some(rate)).expect("converted");
    assert_eq!(amount, Some(dec("15.00")));
    assert_eq!(amount.clone().unwrap().to_text(), "15.00");
    assert_eq!(fx, Some(dec("1.5")));
    // 1 700 000 000 s after the epoch falls on 2023-11-14 (UTC).
    assert_eq!(fx_day, Some(day(2023, 11, 14)));
    let bad = ResolvedRate { rate: dec("0"), valuation_timestamp: 0 };
    assert_eq!(
        compute_conversion(source, other, Some(bad)),
        Err(TransactionError::Internal)
    );
}

#[test]
fn transaction_error_messages() {
    assert_eq!(TransactionError::NotFound.message(), "transaction not found");
    assert_eq!(
        TransactionError::UnknownCategory.message(),
        "the selected category does not exist"
    );
}

#[test]
fn an_amount_written_with_many_trailing_zeros_is_accepted() {
    let text = format!("2.{}", "0".repeat(38));
    assert_eq!(validate_amount(&text).expect("valid"), dec("2"));
    let negative = format!("-0.5{}", "0".repeat(40));
    assert_eq!(validate_amount(&negative).expect("valid"), dec("-0.5"));
    let too_precise = format!("1.{}1", "0".repeat(40));
    assert!(validate_amount(&too_precise).is_err());
}
