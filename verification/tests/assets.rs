use chrono::{DateTime, NaiveDate, Utc};
use finall::assets::conversion::{convert, ConversionError};
use finall::assets::currency::{self, CurrencyError};
use finall::assets::frankfurter::{
    api_root, parse_rows, CurrencyRow, FrankfurterError, RateRow, ReferenceRate,
};
use finall::assets::fx_cache::CachedTable;
use finall::assets::fx_sync::{self, ExistingCurrency, UpsertOutcome};
use finall::assets::rates::{
    derive_rate, foreign_first_mentions, parse_payload, parse_reference_date, RateObservation, RatesError,
};
use finall::assets::schedule::{duration_until_next_month_start, duration_until_next_utc_midnight};
use finall::decimal::{Decimal, Rounding};

fn dec(s: &str) -> Decimal {
    Decimal::parse(s).expect("valid decimal literal")
}

fn micros(at: DateTime<Utc>) -> i64 {
    at.timestamp_micros()
}

fn midnight_utc(y: i32, m: u32, d: u32) -> i64 {
    let naive = NaiveDate::from_ymd_opt(y, m, d).unwrap().and_hms_opt(0, 0, 0).unwrap();
    micros(DateTime::<Utc>::from_naive_utc_and_offset(naive, Utc))
}

fn ts() -> i64 {
    micros(DateTime::from_timestamp(1_700_000_000, 0).expect("valid fixed timestamp"))
}

const SOURCE: u128 = 1;
const TARGET: u128 = 2;

#[test]
fn multiplies_amount_by_rate_at_target_precision() {
    let c = convert(&dec("100"), dec("1.25"), SOURCE, TARGET, ts(), 2, Rounding::HalfEven)
        .expect("conversion succeeds");
    assert_eq!(c.converted_amount, dec("125.00"));
    assert_eq!(c.rate, dec("1.25"));
    assert_eq!(c.minor_units, 2);
    assert_eq!(c.converted_amount.to_text(), "125.00");
    assert_eq!(c.valuation_timestamp, ts());
}

#[test]
fn preserves_negative_amount() {
    let c = convert(&dec("-50"), dec("2"), SOURCE, TARGET, ts(), 2, Rounding::HalfEven)
        .expect("conversion succeeds");
    assert_eq!(c.converted_amount, dec("-100.00"));
}

#[test]
fn zero_amount_is_not_missing_data() {
    let c = convert(&dec("0"), dec("1.25"), SOURCE, TARGET, ts(), 2, Rounding::HalfEven)
        .expect("conversion succeeds");
    assert_eq!(c.converted_amount, dec("0.00"));
}

#[test]
fn applies_the_requested_rounding_mode_at_the_half() {
    let half_even = convert(&dec("1"), dec("1.005"), SOURCE, TARGET, ts(), 2, Rounding::HalfEven)
        .expect("conversion succeeds");
    assert_eq!(half_even.converted_amount, dec("1.00"));
    let half_up = convert(&dec("1"), dec("1.005"), SOURCE, TARGET, ts(), 2, Rounding::HalfUp)
        .expect("conversion succeeds");
    assert_eq!(half_up.converted_amount, dec("1.01"));
}

#[test]
fn every_rounding_mode_at_a_negative_half() {
    let at = |mode| {
        convert(&dec("-1"), dec("1.005"), SOURCE, TARGET, 0, 2, mode)
            .expect("conversion succeeds")
            .converted_amount
    };
    assert_eq!(at(Rounding::Up), dec("-1.01"));
    assert_eq!(at(Rounding::Down), dec("-1.00"));
    assert_eq!(at(Rounding::Ceiling), dec("-1.00"));
    assert_eq!(at(Rounding::Floor), dec("-1.01"));
    assert_eq!(at(Rounding::HalfUp), dec("-1.01"));
    assert_eq!(at(Rounding::HalfDown), dec("-1.00"));
    assert_eq!(at(Rounding::HalfEven), dec("-1.00"));
}

#[test]
fn rejects_non_positive_rate() {
    for rate in ["0", "-1.5"] {
        let result = convert(&dec("100"), dec(rate), SOURCE, TARGET, ts(), 2, Rounding::HalfEven);
        assert!(matches!(result, Err(ConversionError::InvalidInput(_))));
    }
}

#[test]
fn rejects_equal_source_and_target() {
    let result = convert(&dec("100"), dec("1.25"), SOURCE, SOURCE, ts(), 2, Rounding::HalfEven);
    assert!(matches!(result, Err(ConversionError::InvalidInput(_))));
}

#[test]
fn rejects_minor_units_outside_schema_range() {
    for minor_units in [-1, 19] {
        let result =
            convert(&dec("100"), dec("1.25"), SOURCE, TARGET, ts(), minor_units, Rounding::HalfEven);
        assert!(matches!(result, Err(ConversionError::InvalidInput(_))));
    }
}

fn obs(rate: &str, secs: i64) -> RateObservation {
    RateObservation { rate: dec(rate), observed_at: secs * 1_000_000 }
}

#[test]
fn direct_rate_is_preferred_and_used_as_is() {
    let resolved = derive_rate(
        Some(obs("1.25", 100)),
        Some(obs("9", 200)),
        Some(obs("3", 300)),
        Some(obs("4", 400)),
    )
    .expect("a rate is derived");
    assert_eq!(resolved.rate, dec("1.25"));
    assert_eq!(resolved.valuation_timestamp, 100_000_000);
}

#[test]
fn inverse_rate_is_the_reciprocal() {
    let resolved = derive_rate(None, Some(obs("2", 200)), None, None).expect("a rate is derived");
    assert_eq!(resolved.rate, dec("0.5"));
    assert_eq!(resolved.valuation_timestamp, 200_000_000);
}

#[test]
fn inverse_is_preferred_over_the_pivot() {
    let resolved =
        derive_rate(None, Some(obs("4", 200)), Some(obs("1.1", 300)), Some(obs("1.32", 400)))
            .expect("a rate is derived");
    assert_eq!(resolved.rate, dec("0.25"));
}

#[test]
fn pivot_divides_eur_to_target_by_eur_to_source() {
    let resolved = derive_rate(None, None, Some(obs("1.10", 300)), Some(obs("1.32", 400)))
        .expect("a rate is derived");
    assert_eq!(resolved.rate, dec("1.2"));
    assert_eq!(resolved.valuation_timestamp, 300_000_000);
}

#[test]
fn pivot_anchors_to_the_earlier_observation() {
    let resolved = derive_rate(None, None, Some(obs("1.10", 500)), Some(obs("1.32", 250)))
        .expect("a rate is derived");
    assert_eq!(resolved.valuation_timestamp, 250_000_000);
}

#[test]
fn a_reciprocal_that_does_not_terminate_is_rounded_down_at_the_working_precision() {
    let resolved = derive_rate(None, Some(obs("3", 10)), None, None).expect("a rate is derived");
    assert_eq!(resolved.rate, dec("0.3333333333333333333333333333333333"));
}

#[test]
fn a_pivot_quotient_that_does_not_terminate_is_rounded_up_at_the_working_precision() {
    let resolved = derive_rate(None, None, Some(obs("3", 1)), Some(obs("2", 2)))
        .expect("a rate is derived");
    assert_eq!(resolved.rate, dec("0.6666666666666666666666666666666667"));
}

#[test]
fn no_observations_yields_no_rate() {
    assert!(derive_rate(None, None, None, None).is_none());
}

#[test]
fn a_pivot_needs_both_legs() {
    assert!(derive_rate(None, None, Some(obs("1.1", 1)), None).is_none());
    assert!(derive_rate(None, None, None, Some(obs("1.3", 1))).is_none());
}

#[test]
fn a_zero_observation_is_rejected_without_panicking() {
    assert!(derive_rate(None, Some(obs("0", 1)), None, None).is_none());
    assert!(derive_rate(None, None, Some(obs("0", 1)), Some(obs("1.3", 2))).is_none());
}

#[test]
fn a_zero_inverse_falls_through_to_the_pivot() {
    let resolved = derive_rate(None, Some(obs("0", 1)), Some(obs("1.10", 300)), Some(obs("1.32", 400)))
        .expect("the pivot forms a rate");
    assert_eq!(resolved.rate, dec("1.2"));
    assert_eq!(resolved.valuation_timestamp, 300_000_000);
}

#[test]
fn a_tiny_inverse_is_still_inverted() {
    let tiny = dec("1e-2000000000");
    let resolved = derive_rate(None, Some(RateObservation { rate: tiny, observed_at: 0 }), None, None)
        .expect("a non-zero inverse is reciprocated");
    assert_eq!(resolved.rate.scale, -1_999_999_967);
    assert!(resolved.rate.is_positive());
}

#[test]
fn a_product_beyond_any_machine_integer_is_converted_exactly() {
    let result = convert(&dec("1e30"), dec("1e20"), SOURCE, TARGET, ts(), 2, Rounding::HalfEven)
        .expect("converts");
    assert_eq!(result.converted_amount, dec("1e50"));
}

fn rate_row(date: &str, base: &str, quote: &str, rate: &str) -> RateRow {
    RateRow {
        date: date.to_owned(),
        base: base.to_owned(),
        quote: quote.to_owned(),
        rate: rate.to_owned(),
    }
}

fn sample() -> Vec<RateRow> {
    vec![
        rate_row("2024-06-14", "EUR", "USD", "1.0715"),
        rate_row("2024-06-14", "EUR", "GBP", "0.84395"),
        rate_row("2024-06-13", "EUR", "JPY", "168.79"),
    ]
}

fn find<'a>(rates: &'a [ReferenceRate], code: &str) -> &'a ReferenceRate {
    rates.iter().find(|rate| rate.quote_code == code).expect("code present in parsed rates")
}

#[test]
fn rates_parses_each_row_reference_date_as_midnight_utc() {
    let rates = parse_payload(&sample(), "EUR").expect("sample parses");
    assert_eq!(find(&rates, "USD").observed_at, midnight_utc(2024, 6, 14));
    assert_eq!(find(&rates, "JPY").observed_at, midnight_utc(2024, 6, 13));
}

#[test]
fn rates_parses_rates_without_a_float_round_trip() {
    let rates = parse_payload(&sample(), "EUR").expect("sample parses");
    assert_eq!(rates.len(), 3);
    assert_eq!(find(&rates, "USD").rate, dec("1.0715"));
    assert_eq!(find(&rates, "GBP").rate, dec("0.84395"));
}

#[test]
fn rates_preserves_a_high_precision_rate() {
    let body = vec![rate_row("2024-06-14", "EUR", "USD", "1.234567890123456789")];
    let rates = parse_payload(&body, "EUR").expect("body parses");
    assert_eq!(find(&rates, "USD").rate, dec("1.234567890123456789"));
}

#[test]
fn rates_parses_an_integer_rate() {
    let body = vec![rate_row("2024-06-14", "EUR", "AOA", "818976")];
    let rates = parse_payload(&body, "EUR").expect("body parses");
    assert_eq!(find(&rates, "AOA").rate, dec("818976"));
}

#[test]
fn rates_accepts_any_base_as_long_as_it_is_the_one_requested() {
    let body = vec![
        rate_row("2024-06-14", "USD", "EUR", "0.93"),
        rate_row("2024-06-14", "USD", "USD", "1.0"),
    ];
    let rates = parse_payload(&body, "USD").expect("body parses");
    assert_eq!(rates.len(), 1);
    assert_eq!(find(&rates, "EUR").rate, dec("0.93"));
}

#[test]
fn rates_skips_a_base_self_quote() {
    let body = vec![rate_row("2024-06-14", "EUR", "EUR", "1.0")];
    assert!(parse_payload(&body, "EUR").expect("body parses").is_empty());
}

#[test]
fn rates_rejects_a_non_positive_rate() {
    for rate in ["0", "-1.5"] {
        let body = vec![rate_row("2024-06-14", "EUR", "USD", rate)];
        assert!(matches!(parse_payload(&body, "EUR"), Err(RatesError::Parse(_))));
    }
}

#[test]
fn rates_rejects_a_base_other_than_the_one_requested() {
    let body = vec![rate_row("2024-06-14", "USD", "EUR", "0.93")];
    assert!(matches!(parse_payload(&body, "EUR"), Err(RatesError::Parse(_))));
}

#[test]
fn rates_rejects_an_invalid_reference_date() {
    let body = vec![rate_row("not-a-date", "EUR", "USD", "1.07")];
    assert!(matches!(parse_payload(&body, "EUR"), Err(RatesError::Parse(_))));
}

#[test]
fn rates_rejects_an_empty_response() {
    assert!(matches!(parse_payload(&vec![], "EUR"), Err(RatesError::Parse(_))));
}

#[test]
fn the_first_bad_row_names_the_rejection() {
    let body = vec![
        rate_row("2024-06-14", "EUR", "USD", "abc"),
        rate_row("2024-06-14", "USD", "EUR", "1"),
    ];
    assert!(matches!(
        parse_payload(&body, "EUR"),
        Err(RatesError::Parse("exchange-rate response had a non-numeric rate"))
    ));
    assert_eq!(
        parse_reference_date("1970-01-02"),
        Ok(86_400_000_000)
    );
    assert_eq!(parse_reference_date("1969-12-31"), Ok(-86_400_000_000));
    assert!(parse_reference_date("2024-13-01").is_err());
}

#[test]
fn frankfurter_parses_each_row_reference_date_as_midnight_utc() {
    let rates = parse_rows(&sample(), "EUR").expect("sample parses");
    assert_eq!(find(&rates, "USD").observed_at, midnight_utc(2024, 6, 14));
    assert_eq!(find(&rates, "JPY").observed_at, midnight_utc(2024, 6, 13));
}

#[test]
fn frankfurter_parses_rates_without_a_float_round_trip() {
    let rates = parse_rows(&sample(), "EUR").expect("sample parses");
    assert_eq!(rates.len(), 3);
    assert_eq!(find(&rates, "USD").rate, dec("1.0715"));
    assert_eq!(find(&rates, "GBP").rate, dec("0.84395"));
}

#[test]
fn frankfurter_preserves_a_high_precision_rate() {
    let body = vec![rate_row("2024-06-14", "EUR", "USD", "1.234567890123456789")];
    let rates = parse_rows(&body, "EUR").expect("body parses");
    assert_eq!(find(&rates, "USD").rate, dec("1.234567890123456789"));
}

#[test]
fn frankfurter_parses_an_integer_rate() {
    let body = vec![rate_row("2024-06-14", "EUR", "AOA", "818976")];
    let rates = parse_rows(&body, "EUR").expect("body parses");
    assert_eq!(find(&rates, "AOA").rate, dec("818976"));
}

#[test]
fn frankfurter_accepts_any_base_as_long_as_it_is_the_one_requested() {
    let body = vec![
        rate_row("2024-06-14", "USD", "EUR", "0.93"),
        rate_row("2024-06-14", "USD", "USD", "1.0"),
    ];
    let rates = parse_rows(&body, "USD").expect("body parses");
    assert_eq!(rates.len(), 1);
    assert_eq!(find(&rates, "EUR").rate, dec("0.93"));
}

#[test]
fn frankfurter_skips_a_base_self_quote() {
    let body = vec![rate_row("2024-06-14", "EUR", "EUR", "1.0")];
    assert!(parse_rows(&body, "EUR").expect("body parses").is_empty());
}

#[test]
fn frankfurter_rejects_a_non_positive_rate() {
    for rate in ["0", "-1.5"] {
        let body = vec![rate_row("2024-06-14", "EUR", "USD", rate)];
        assert!(matches!(parse_rows(&body, "EUR"), Err(FrankfurterError::Parse(_))));
    }
}

#[test]
fn frankfurter_rejects_a_base_other_than_the_one_requested() {
    let body = vec![rate_row("2024-06-14", "USD", "EUR", "0.93")];
    assert!(matches!(parse_rows(&body, "EUR"), Err(FrankfurterError::Parse(_))));
}

#[test]
fn frankfurter_rejects_an_invalid_reference_date() {
    let body = vec![rate_row("not-a-date", "EUR", "USD", "1.07")];
    assert!(matches!(parse_rows(&body, "EUR"), Err(FrankfurterError::Parse(_))));
}

#[test]
fn frankfurter_rejects_an_empty_response() {
    assert!(matches!(parse_rows(&vec![], "EUR"), Err(FrankfurterError::Parse(_))));
}

#[test]
fn api_root_trims_and_drops_trailing_slashes() {
    assert_eq!(api_root(None), "https://api.frankfurter.dev");
    assert_eq!(api_root(Some("   ")), "https://api.frankfurter.dev");
    assert_eq!(api_root(Some(" http://localhost:8080// ")), "http://localhost:8080");
}

fn reference(quote: &str, value: &str, y: i32, m: u32, d: u32) -> ReferenceRate {
    ReferenceRate { observed_at: midnight_utc(y, m, d), quote_code: quote.to_owned(), rate: dec(value) }
}

#[test]
fn table_takes_its_as_of_from_the_first_row_and_maps_every_quote() {
    let table = CachedTable::from_rows(vec![
        reference("USD", "1.07", 2026, 6, 12),
        reference("GBP", "0.84", 2026, 6, 12),
    ])
    .expect("non-empty response");
    assert_eq!(table.as_of, midnight_utc(2026, 6, 12));
    assert_eq!(table.lookup("USD"), Some((dec("1.07"), midnight_utc(2026, 6, 12))));
    assert_eq!(table.lookup("GBP").map(|(rate, _)| rate), Some(dec("0.84")));
}

#[test]
fn a_quote_the_table_does_not_carry_is_a_miss() {
    let table = CachedTable::from_rows(vec![reference("USD", "1.07", 2026, 6, 12)])
        .expect("non-empty");
    assert_eq!(table.lookup("JPY"), None);
}

#[test]
fn an_empty_response_builds_no_table() {
    assert!(CachedTable::from_rows(vec![]).is_none());
}

#[test]
fn a_later_row_for_the_same_quote_replaces_the_earlier() {
    let table = CachedTable::from_rows(vec![
        reference("USD", "1.07", 2026, 6, 12),
        reference("USD", "1.08", 2026, 6, 12),
    ])
    .expect("non-empty");
    assert_eq!(table.quotes.len(), 1);
    assert_eq!(table.lookup("USD").map(|(rate, _)| rate), Some(dec("1.08")));
}

fn at(text: &str) -> i64 {
    micros(DateTime::parse_from_rfc3339(text).expect("valid timestamp literal").with_timezone(&Utc))
}

const SECOND: u64 = 1_000_000;

#[test]
fn midnight_is_the_start_of_the_next_day() {
    assert_eq!(duration_until_next_utc_midnight(at("2026-09-10T00:00:00Z")), 24 * 60 * 60 * SECOND);
    assert_eq!(duration_until_next_utc_midnight(at("2026-09-10T23:59:59Z")), SECOND);
    assert_eq!(duration_until_next_utc_midnight(at("2026-09-10T06:00:00Z")), 18 * 60 * 60 * SECOND);
}

#[test]
fn month_start_rolls_over_the_year() {
    assert_eq!(
        duration_until_next_month_start(at("2026-09-10T00:00:00Z")),
        21 * 24 * 60 * 60 * SECOND
    );
    assert_eq!(
        duration_until_next_month_start(at("2026-12-15T00:00:00Z")),
        17 * 24 * 60 * 60 * SECOND
    );
    assert_eq!(
        duration_until_next_month_start(at("2026-11-01T00:00:00Z")),
        30 * 24 * 60 * 60 * SECOND
    );
}

#[test]
fn a_moment_before_the_epoch_still_waits_for_the_next_midnight() {
    assert_eq!(duration_until_next_utc_midnight(-1), 1);
    assert_eq!(duration_until_next_month_start(-1), 1);
}

fn currency_row(code: &str, numeric: Option<&str>, name: &str, symbol: Option<&str>) -> CurrencyRow {
    CurrencyRow {
        iso_code: code.to_owned(),
        iso_numeric: numeric.map(str::to_owned),
        name: name.to_owned(),
        symbol: symbol.map(str::to_owned),
    }
}

#[test]
fn currency_normalise_keeps_a_valid_row_and_trims_it() {
    let normalised = currency::normalise(currency_row("usd", Some("840"), "  US Dollar  ", Some(" $ ")))
        .expect("valid row");
    assert_eq!(normalised.code, "USD");
    assert_eq!(normalised.numeric_code.as_deref(), Some("840"));
    assert_eq!(normalised.name, "US Dollar");
    assert_eq!(normalised.symbol.as_deref(), Some("$"));
}

#[test]
fn currency_normalise_drops_a_bad_code_or_blank_name() {
    assert!(currency::normalise(currency_row("US", None, "Dollar", None)).is_none());
    assert!(currency::normalise(currency_row("USD", None, "   ", None)).is_none());
}

#[test]
fn currency_normalise_clears_a_blank_symbol_and_a_malformed_numeric_code() {
    let normalised = currency::normalise(currency_row("USD", Some("84"), "US Dollar", Some("   ")))
        .expect("still valid");
    assert_eq!(normalised.numeric_code, None);
    assert_eq!(normalised.symbol, None);
}

#[test]
fn fx_sync_normalise_keeps_a_valid_row_and_trims_it() {
    let normalised = fx_sync::normalise(currency_row("usd", Some("840"), "  US Dollar  ", Some(" $ ")))
        .expect("valid row");
    assert_eq!(normalised.code, "USD");
    assert_eq!(normalised.numeric_code.as_deref(), Some("840"));
    assert_eq!(normalised.name, "US Dollar");
    assert_eq!(normalised.symbol.as_deref(), Some("$"));
}

#[test]
fn fx_sync_normalise_drops_a_bad_code_or_blank_name() {
    assert!(fx_sync::normalise(currency_row("US", None, "Dollar", None)).is_none());
    assert!(fx_sync::normalise(currency_row("USD", None, "   ", None)).is_none());
}

#[test]
fn fx_sync_normalise_clears_a_blank_symbol_and_a_malformed_numeric_code() {
    let normalised = fx_sync::normalise(currency_row("USD", Some("84"), "US Dollar", Some("   ")))
        .expect("still valid");
    assert_eq!(normalised.numeric_code, None);
    assert_eq!(normalised.symbol, None);
}

#[test]
fn currency_codes_are_validated() {
    assert_eq!(currency::validate_alphabetic_code(" eur "), Ok("EUR".to_owned()));
    assert!(matches!(
        currency::validate_alphabetic_code("EU1"),
        Err(CurrencyError::InvalidInput(_))
    ));
    assert_eq!(currency::validate_numeric_code(Some(" 978 ")), Ok(Some("978".to_owned())));
    assert_eq!(currency::validate_numeric_code(Some("")), Ok(None));
    assert!(currency::validate_numeric_code(Some("97a")).is_err());
    assert_eq!(currency::validate_minor_units(18), Ok(18));
    assert!(currency::validate_minor_units(19).is_err());
    assert!(currency::validate_minor_units(-1).is_err());
}

#[test]
fn upsert_leaves_deleted_and_identical_rows_alone() {
    let currency = fx_sync::normalise(currency_row("USD", Some("840"), "US Dollar", Some("$")))
        .expect("valid");
    assert_eq!(fx_sync::upsert_decision(&None, &currency), UpsertOutcome::Inserted);
    let same = ExistingCurrency {
        id: 9,
        deleted: false,
        asset_name: "US Dollar".to_owned(),
        symbol: Some("$".to_owned()),
        numeric_code: Some("840".to_owned()),
    };
    assert_eq!(fx_sync::upsert_decision(&Some(same.clone()), &currency), UpsertOutcome::Unchanged);
    let renamed = ExistingCurrency { asset_name: "Dollar".to_owned(), ..same.clone() };
    assert_eq!(fx_sync::upsert_decision(&Some(renamed), &currency), UpsertOutcome::Updated);
    let deleted = ExistingCurrency { deleted: true, ..same };
    assert_eq!(fx_sync::upsert_decision(&Some(deleted), &currency), UpsertOutcome::SkippedDeleted);

    let mut summary = fx_sync::SyncSummary::new();
    summary.record(Ok(UpsertOutcome::Inserted));
    summary.record(Ok(UpsertOutcome::Unchanged));
    summary.record(Err(()));
    assert_eq!(
        summary,
        fx_sync::SyncSummary { inserted: 1, updated: 0, unchanged: 1, skipped: 1 }
    );
}

#[test]
fn each_foreign_currency_is_looked_up_once_in_first_mention_order() {
    assert_eq!(foreign_first_mentions(&vec![7, 3, 1, 3, 7, 9, 1], 1), vec![0, 1, 5]);
    assert_eq!(foreign_first_mentions(&vec![1, 1], 1), Vec::<usize>::new());
    assert_eq!(foreign_first_mentions(&vec![], 1), Vec::<usize>::new());
}
