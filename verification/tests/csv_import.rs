use finall::date::Date;
use finall::decimal::Decimal;
use finall::transaction_import::{
    name_index, plan_import, resolve_columns, resolve_row, ImportOutcome, NameIndex,
    TransactionImportError,
};
use uuid::Uuid;

fn record(fields: &[&str]) -> Vec<String> {
    fields.iter().map(|f| (*f).to_owned()).collect()
}

fn headers(names: &[&str]) -> Vec<String> {
    record(names)
}

fn empty() -> NameIndex {
    name_index(vec![])
}

#[test]
fn resolve_columns_finds_required_and_optional_by_name_case_insensitively() {
    let columns = resolve_columns(&headers(&["Date", "AMOUNT", "Category"])).unwrap();
    assert_eq!(columns.date, 0);
    assert_eq!(columns.amount, 1);
    assert_eq!(columns.category, Some(2));
    assert_eq!(columns.merchant, None);
}

#[test]
fn resolve_columns_rejects_a_missing_required_column() {
    assert!(resolve_columns(&headers(&["amount"])).is_err());
    assert!(resolve_columns(&headers(&["date"])).is_err());
}

#[test]
fn resolve_columns_names_the_missing_column() {
    assert_eq!(
        resolve_columns(&headers(&["amount"])),
        Err(TransactionImportError::InvalidInput("the CSV file must have a \"date\" column"))
    );
    assert_eq!(
        resolve_columns(&headers(&["date"])),
        Err(TransactionImportError::InvalidInput("the CSV file must have an \"amount\" column"))
    );
}

#[test]
fn resolve_row_rejects_a_bad_amount_or_date() {
    let columns = resolve_columns(&headers(&["date", "amount"])).unwrap();
    let asset_id = Uuid::nil().as_u128();
    assert!(resolve_row(&record(&["2026-01-15", "not-a-number"]), &columns, asset_id, &empty(), &empty())
        .is_err());
    assert!(resolve_row(&record(&["not-a-date", "10.00"]), &columns, asset_id, &empty(), &empty())
        .is_err());
}

#[test]
fn resolve_row_treats_a_blank_optional_cell_as_none() {
    let columns = resolve_columns(&headers(&["date", "amount", "category"])).unwrap();
    let asset_id = Uuid::nil().as_u128();
    let write = resolve_row(&record(&["2026-01-15", "10.00", ""]), &columns, asset_id, &empty(), &empty())
        .expect("valid row");
    assert_eq!(write.category_id, None);
}

#[test]
fn resolve_row_matches_a_category_name_case_insensitively_and_rejects_unknown_names() {
    let columns = resolve_columns(&headers(&["date", "amount", "category"])).unwrap();
    let asset_id = Uuid::nil().as_u128();
    let category_id = Uuid::parse_str("0193c0f0-1234-7abc-8def-0123456789ab").unwrap().as_u128();
    let categories = name_index(vec![("groceries".to_owned(), category_id)]);
    let merchants = empty();
    let write = resolve_row(
        &record(&["2026-01-15", "10.00", "GROCERIES"]),
        &columns,
        asset_id,
        &categories,
        &merchants,
    )
    .expect("matches case-insensitively");
    assert_eq!(write.category_id, Some(category_id));
    assert!(resolve_row(&record(&["2026-01-15", "10.00", "Unknown"]), &columns, asset_id, &categories, &merchants)
        .is_err());
}

#[test]
fn the_first_name_wins_a_case_only_collision() {
    let index = name_index(vec![("Food".to_owned(), 1), ("FOOD".to_owned(), 2), ("Rent".to_owned(), 3)]);
    assert_eq!(index.entries.len(), 2);
    assert_eq!(index.get("food"), Some(1));
    assert_eq!(index.get("rent"), Some(3));
    assert_eq!(index.get("Rent"), None);
}

#[test]
fn a_whole_file_is_planned_row_by_row() {
    let csv = "Date,Amount,Category,Merchant\n\
               2026-01-15, -12.50 ,groceries,\n\
               2026-01-16,abc,,\n\
               2026-01-17,3,unknown,\n\
               2026-01-18,4,,Acme\n";
    let categories = name_index(vec![("Groceries".to_owned(), 7)]);
    let merchants = name_index(vec![("acme".to_owned(), 9)]);
    let rows = plan_import(csv, 5, &categories, &merchants).expect("planned");
    assert_eq!(rows.len(), 4);
    assert_eq!(rows[0].row_number, 2);
    let first = rows[0].outcome.as_ref().expect("valid row");
    assert_eq!(first.asset_id, 5);
    assert_eq!(first.amount, Decimal::parse("-12.5").unwrap());
    assert_eq!(Some(first.booking_date), Date::from_ymd(2026, 1, 15));
    assert_eq!(first.category_id, Some(7));
    assert_eq!(first.merchant_id, None);
    assert_eq!(rows[1].outcome.as_ref().unwrap_err(), "amount must be a number");
    assert_eq!(rows[2].row_number, 4);
    assert!(rows[2].outcome.is_err());
    assert_eq!(rows[3].outcome.as_ref().expect("valid").merchant_id, Some(9));
}

#[test]
fn a_file_without_the_required_columns_is_rejected_whole() {
    let rows = plan_import("when,how much\n2026-01-01,1\n", 1, &empty(), &empty());
    assert_eq!(
        rows.map(|r| r.len()),
        Err(TransactionImportError::InvalidInput("the CSV file must have a \"date\" column"))
    );
    assert!(plan_import("", 1, &empty(), &empty()).is_err());
}

#[test]
fn an_import_outcome_counts_and_collects() {
    let mut outcome = ImportOutcome::new();
    outcome.record(2, Ok(()));
    outcome.record(3, Err("bad".to_owned()));
    assert_eq!(outcome.imported, 1);
    assert_eq!(outcome.rejected.len(), 1);
    assert_eq!(outcome.rejected[0].row_number, 3);
    assert_eq!(outcome.rejected[0].reason, "bad");
}
