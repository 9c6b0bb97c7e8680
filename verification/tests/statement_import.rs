use finall::date::Date;
use finall::decimal::Decimal;
use finall::statement_import::{
    decode_entities, header_labels, locate_header, merchant_candidate, normalize_amount_en,
    normalize_amount_fr, parse_cell_rows, parse_english_date, parse_french_date, parse_row,
    parse_statement_year, plan_confirmed_rows, resolve_suggestions, suggestion_index,
    ConfirmedRowInput, DeblockParse, Locale, RowCells, StatementImportError,
};

fn dec(s: &str) -> Decimal {
    Decimal::parse(s).expect("test decimal")
}

fn ymd(y: i32, m: u32, d: u32) -> Option<Date> {
    Date::from_ymd(y, m, d)
}

fn cells(
    date: Option<&str>,
    value_date: Option<&str>,
    description: Option<&str>,
    debit: Option<&str>,
    credit: Option<&str>,
) -> RowCells {
    RowCells {
        date: date.map(str::to_owned),
        value_date: value_date.map(str::to_owned),
        description: description.map(str::to_owned),
        debit: debit.map(str::to_owned),
        credit: credit.map(str::to_owned),
    }
}

/// A word on the page: its x-position and its text.
type Word = (f64, &'static str);

/// Locate the header among the rows' texts, then give each later word to the
/// rightmost column whose header starts at or before it (within 1.0),
/// joining the words of one column with a space.
fn parse_words(
    rows: &[Vec<Word>],
    statement_year: Option<i32>,
    next_row_number: &mut usize,
) -> Result<DeblockParse, StatementImportError> {
    let texts: Vec<Vec<String>> = rows
        .iter()
        .map(|row| row.iter().map(|(_, t)| (*t).to_owned()).collect())
        .collect();
    let (header_index, columns, locale) = locate_header(&texts).ok_or(
        StatementImportError::InvalidInput("expected header row not found"),
    )?;
    let header = &rows[header_index];
    let mut all = Vec::new();
    for row in &rows[header_index + 1..] {
        let mut c = cells(None, None, None, None, None);
        for (x, text) in row {
            let Some(index) = columns.iter().rposition(|(_, p)| x + 1.0 >= header[*p].0) else {
                continue;
            };
            let slot = match columns[index].0 {
                "date" => &mut c.date,
                "value_date" => &mut c.value_date,
                "description" => &mut c.description,
                "debit" => &mut c.debit,
                _ => &mut c.credit,
            };
            *slot = Some(match slot.take() {
                Some(before) => format!("{before} {text}"),
                None => (*text).to_owned(),
            });
        }
        all.push(c);
    }
    Ok(parse_cell_rows(&all, locale, statement_year, next_row_number))
}

#[test]
fn parse_french_date_accepts_a_known_month_and_rejects_unknown_ones() {
    assert_eq!(parse_french_date("29 avril 2024"), ymd(2024, 4, 29));
    assert_eq!(parse_french_date("29 fevrier 2024"), None);
    assert_eq!(parse_french_date("garbage"), None);
    assert_eq!(parse_french_date("29 avril 2024 extra"), None);
}

#[test]
fn parse_english_date_uses_the_supplied_year_and_rejects_unknown_months() {
    assert_eq!(parse_english_date("June 01", 2025), ymd(2025, 6, 1));
    assert_eq!(parse_english_date("Junuary 01", 2025), None);
    assert_eq!(parse_english_date("garbage", 2025), None);
}

#[test]
fn french_and_english_dates_reject_impossible_days() {
    assert_eq!(parse_french_date("30 février 2024"), None);
    assert_eq!(parse_french_date("29 février 2024"), ymd(2024, 2, 29));
    assert_eq!(parse_english_date("February 29", 2023), None);
    assert_eq!(parse_english_date("December 31", 2023), ymd(2023, 12, 31));
}

#[test]
fn normalize_amount_fr_converts_comma_to_period() {
    assert_eq!(normalize_amount_fr("9,99"), "9.99");
    assert_eq!(normalize_amount_fr(" 50,00 "), "50.00");
}

#[test]
fn normalize_amount_en_strips_thousands_separators() {
    assert_eq!(normalize_amount_en("5.80"), "5.80");
    assert_eq!(normalize_amount_en("1'124.61"), "1124.61");
    assert_eq!(normalize_amount_en("1\u{2019}124.61"), "1124.61");
}

#[test]
fn decode_entities_replaces_the_five_standard_entities() {
    assert_eq!(decode_entities("McDonald&apos;s"), "McDonald's");
    assert_eq!(decode_entities("Fish &amp; Chips"), "Fish & Chips");
    assert_eq!(decode_entities("no entities here"), "no entities here");
}

#[test]
fn decode_entities_decodes_amp_last() {
    assert_eq!(decode_entities("&quot;a&lt;b&gt;&quot;"), "\"a<b>\"");
    // `&amp;lt;` is a literal `&lt;`, not a second-stage `<`.
    assert_eq!(decode_entities("&amp;lt;"), "&lt;");
}

#[test]
fn merchant_candidate_extracts_the_first_quoted_substring_or_falls_back() {
    assert_eq!(merchant_candidate("Virement \"MR JOHN DOE\""), "MR JOHN DOE");
    assert_eq!(merchant_candidate("Frais \"Card delivery\""), "Card delivery");
    assert_eq!(merchant_candidate("No quotes here"), "No quotes here");
}

#[test]
fn merchant_candidate_with_one_quote_falls_back_to_the_trimmed_text() {
    assert_eq!(merchant_candidate("  Open \"quote only  "), "Open \"quote only");
    assert_eq!(merchant_candidate("\"\" empty"), "");
}

#[test]
fn parse_row_rejects_both_columns_and_neither_column() {
    let both = cells(
        Some("29 avril 2024"),
        Some("29 avril 2024"),
        None,
        Some("9,99"),
        Some("50,00"),
    );
    assert!(parse_row(1, &both, Locale::French, None).is_err());

    let neither = cells(Some("29 avril 2024"), Some("29 avril 2024"), None, None, None);
    assert!(parse_row(1, &neither, Locale::French, None).is_err());
}

#[test]
fn parse_row_produces_a_signed_amount_from_column_membership_alone() {
    let credit = cells(
        Some("29 avril 2024"),
        Some("29 avril 2024"),
        Some("Virement \"MR JOHN DOE\""),
        None,
        Some("50,00"),
    );
    let row = parse_row(1, &credit, Locale::French, None).expect("valid credit row");
    assert_eq!(row.amount, dec("50.00"));
    assert_eq!(row.merchant_candidate, "MR JOHN DOE");

    let debit = cells(
        Some("29 avril 2024"),
        Some("29 avril 2024"),
        Some("Frais \"Card delivery\""),
        Some("9,99"),
        None,
    );
    let row = parse_row(2, &debit, Locale::French, None).expect("valid debit row");
    assert_eq!(row.amount, dec("-9.99"));
}

#[test]
fn parse_row_english_requires_the_statement_year() {
    let row = cells(
        Some("June 01"),
        Some("May 30"),
        Some("Card Payment \"Ugc Astoria\""),
        Some("5.80"),
        None,
    );
    assert!(parse_row(1, &row, Locale::English, None).is_err());
    let parsed = parse_row(1, &row, Locale::English, Some(2025)).expect("valid with year");
    assert_eq!(Some(parsed.booking_date), ymd(2025, 6, 1));
    assert_eq!(Some(parsed.value_date), ymd(2025, 5, 30));
    assert_eq!(parsed.amount, dec("-5.80"));
    assert_eq!(parsed.merchant_candidate, "Ugc Astoria");
}

#[test]
fn parse_row_reports_each_reason() {
    let no_date = cells(None, Some("29 avril 2024"), None, Some("1,00"), None);
    assert_eq!(parse_row(1, &no_date, Locale::French, None).unwrap_err(), "missing date");
    let no_value = cells(Some("29 avril 2024"), None, None, Some("1,00"), None);
    assert_eq!(
        parse_row(1, &no_value, Locale::French, None).unwrap_err(),
        "missing value date"
    );
    let bad_date = cells(Some("29 avr 2024"), Some("29 avril 2024"), None, Some("1,00"), None);
    assert_eq!(
        parse_row(1, &bad_date, Locale::French, None).unwrap_err(),
        "unrecognized date format"
    );
    let english = cells(Some("June 01"), Some("June 01"), None, Some("1.00"), None);
    assert_eq!(
        parse_row(1, &english, Locale::English, None).unwrap_err(),
        "unrecognized date format (or missing statement year)"
    );
    let both = cells(
        Some("29 avril 2024"),
        Some("29 avril 2024"),
        None,
        Some("1,00"),
        Some("2,00"),
    );
    assert_eq!(
        parse_row(1, &both, Locale::French, None).unwrap_err(),
        "amount appears in both the debit and credit columns"
    );
    let zero = cells(Some("29 avril 2024"), Some("29 avril 2024"), None, None, Some("0,00"));
    assert_eq!(
        parse_row(1, &zero, Locale::French, None).unwrap_err(),
        "amount must not be zero"
    );
}

#[test]
fn parse_row_decodes_entities_before_taking_the_candidate() {
    let row = cells(
        Some("29 avril 2024"),
        Some("29 avril 2024"),
        Some("Card &quot;McDonald&apos;s&quot;"),
        Some("1'124.61"),
        None,
    );
    let parsed = parse_row(7, &row, Locale::English, Some(2024));
    assert!(parsed.is_err());
    let row = cells(
        Some("April 29"),
        Some("April 29"),
        Some("Card &quot;McDonald&apos;s&quot;"),
        Some("1'124.61"),
        None,
    );
    let parsed = parse_row(7, &row, Locale::English, Some(2024)).expect("valid row");
    assert_eq!(parsed.row_number, 7);
    assert_eq!(parsed.description, "Card \"McDonald's\"");
    assert_eq!(parsed.merchant_candidate, "McDonald's");
    assert_eq!(parsed.amount, dec("-1124.61"));
}

#[test]
fn parse_words_reproduces_the_french_samples_shape() {
    let header = vec![
        (66.0, "Date"),
        (145.65, "Valeur"),
        (225.3, "Opération"),
        (384.6, "Débit"),
        (424.425, "Crédit"),
    ];
    let credit_row = vec![
        (66.0, "29 avril 2024"),
        (145.65, "29 avril 2024"),
        (225.3, "Virement \"MR JOHN DOE\""),
        (424.425, "50,00"),
    ];
    let debit_row = vec![
        (66.0, "29 avril 2024"),
        (145.65, "29 avril 2024"),
        (225.3, "Frais \"Card delivery\""),
        (384.6, "9,99"),
    ];
    let rows = vec![header, credit_row, debit_row];

    let mut next_row_number = 1usize;
    let parsed = parse_words(&rows, None, &mut next_row_number).expect("recognized header");
    assert_eq!(parsed.rejected.len(), 0);
    assert_eq!(parsed.rows.len(), 2);
    assert!(parsed.rows[0].amount.is_positive());
    assert!(parsed.rows[1].amount.is_negative());
    assert_eq!(next_row_number, 3);
}

#[test]
fn parse_words_reproduces_the_english_samples_shape() {
    let header = vec![
        (66.0, "Date"),
        (145.65, "Value date"),
        (225.3, "Transaction"),
        (384.6, "Debit"),
        (424.425, "Credit"),
    ];
    let debit_row = vec![
        (66.0, "June 01"),
        (145.65, "May 30"),
        (225.3, "Card Payment \"Ugc Astoria\""),
        (384.6, "5.80"),
    ];
    let credit_row = vec![
        (66.0, "June 03"),
        (145.65, "June 03"),
        (225.3, "Transfer \"MR JOHN DOE\""),
        (424.425, "100.00"),
    ];
    let rows = vec![header, debit_row, credit_row];

    let mut next_row_number = 1usize;
    let without_year =
        parse_words(&rows, None, &mut next_row_number).expect("header recognized");
    assert_eq!(without_year.rows.len(), 0);
    assert_eq!(without_year.rejected.len(), 2);

    let mut next_row_number = 1usize;
    let with_year =
        parse_words(&rows, Some(2025), &mut next_row_number).expect("header recognized");
    assert_eq!(with_year.rejected.len(), 0);
    assert_eq!(with_year.rows.len(), 2);
    assert!(with_year.rows[0].amount.is_negative());
    assert!(with_year.rows[1].amount.is_positive());
}

#[test]
fn locate_header_prefers_french_and_fails_without_every_label() {
    let rows = vec![
        vec!["Relevé".to_owned()],
        vec![
            "Date".to_owned(),
            "Valeur".to_owned(),
            "Opération".to_owned(),
            "Débit".to_owned(),
            "Crédit".to_owned(),
        ],
    ];
    let (index, columns, locale) = locate_header(&rows).expect("header");
    assert_eq!(index, 1);
    assert_eq!(locale, Locale::French);
    assert_eq!(
        columns,
        vec![("date", 0), ("value_date", 1), ("description", 2), ("debit", 3), ("credit", 4)]
    );
    let missing = vec![vec!["Date".to_owned(), "Valeur".to_owned()]];
    assert!(locate_header(&missing).is_none());
    assert_eq!(header_labels(Locale::English)[1], ("Value date", "value_date"));
}

#[test]
fn rejected_rows_keep_their_sequential_numbers() {
    let rows = vec![
        cells(Some("29 avril 2024"), Some("29 avril 2024"), None, None, None),
        cells(Some("29 avril 2024"), Some("29 avril 2024"), None, Some("1,00"), None),
    ];
    let mut next = 10usize;
    let parsed = parse_cell_rows(&rows, Locale::French, None, &mut next);
    assert_eq!(next, 12);
    assert_eq!(parsed.rejected.len(), 1);
    assert_eq!(parsed.rejected[0].row_number, 10);
    assert_eq!(parsed.rows[0].row_number, 11);
}

#[test]
fn suggestions_match_case_insensitively_and_the_first_name_wins() {
    let merchants = vec![
        ("Ugc Astoria".to_owned(), 1u128),
        ("UGC ASTORIA".to_owned(), 2u128),
        ("Acme".to_owned(), 3u128),
    ];
    let index = suggestion_index(&merchants);
    assert_eq!(index.entries.len(), 2);
    let row = cells(
        Some("June 01"),
        Some("June 01"),
        Some("Card \"ugc astoria\""),
        Some("5.80"),
        None,
    );
    let other = cells(Some("June 02"), Some("June 02"), Some("Nothing"), Some("1.00"), None);
    let mut next = 1usize;
    let parsed = parse_cell_rows(&vec![row, other], Locale::English, Some(2025), &mut next);
    let resolved = resolve_suggestions(parsed, &index);
    assert_eq!(resolved.rows[0].suggested_merchant_id, Some(1));
    assert_eq!(resolved.rows[0].suggested_merchant_name.as_deref(), Some("Ugc Astoria"));
    assert_eq!(resolved.rows[1].suggested_merchant_id, None);
    assert_eq!(resolved.rows[1].suggested_merchant_name, None);
}

#[test]
fn statement_year_is_optional_but_must_be_a_number() {
    assert_eq!(parse_statement_year(None), Ok(None));
    assert_eq!(parse_statement_year(Some("  ")), Ok(None));
    assert_eq!(parse_statement_year(Some(" 2025 ")), Ok(Some(2025)));
    assert_eq!(
        parse_statement_year(Some("twenty")),
        Err(StatementImportError::InvalidInput("statement year must be a number"))
    );
}

#[test]
fn confirmed_rows_are_revalidated_in_order() {
    let good = ConfirmedRowInput {
        booking_date: "2024-04-29".to_owned(),
        value_date: Some("2024-04-30".to_owned()),
        amount: "-9.99".to_owned(),
        category_id: String::new(),
        merchant_id: "  ".to_owned(),
    };
    let bad_amount = ConfirmedRowInput { amount: "abc".to_owned(), ..good.clone() };
    let bad_category = ConfirmedRowInput { category_id: "nope".to_owned(), ..good.clone() };
    let planned = plan_confirmed_rows(&vec![good, bad_amount, bad_category], 42);
    assert_eq!(planned.len(), 3);
    assert_eq!(planned[0].row_number, 1);
    let write = planned[0].outcome.as_ref().expect("valid row");
    assert_eq!(write.asset_id, 42);
    assert_eq!(write.amount, dec("-9.99"));
    assert_eq!(Some(write.booking_date), ymd(2024, 4, 29));
    assert_eq!(write.value_date, ymd(2024, 4, 30));
    assert_eq!(write.category_id, None);
    assert_eq!(write.merchant_id, None);
    assert_eq!(planned[1].outcome.as_ref().unwrap_err(), "amount must be a number");
    assert_eq!(planned[2].outcome.as_ref().unwrap_err(), "invalid category id");
}
