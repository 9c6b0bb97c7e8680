//! The shapes exchanged with the browser about transactions: ids as text,
//! amounts as exact decimal text (never a float), dates as `YYYY-MM-DD`, and
//! the rendering of a stored transaction into that shape.

use vstd::prelude::*;

use crate::date::{iso_spec, Date};
use crate::decimal::{bd_text, dup_opt, Decimal};
use crate::ids::{uuid_text, uuid_text_spec};
use crate::statement_import::{ResolvedRow, StatementExtraction};
use crate::text::opt_string_view;
use crate::transaction_import::{ImportOutcome, RowError};
use crate::transactions::{cursor_text_spec, encode_cursor, TransactionListPage, TransactionRecord};

verus! {

/// One of the user's transactions, in the shape the browser may see.
#[derive(Clone, Debug, PartialEq)]
pub struct TransactionDto {
    pub id: String,
    pub account_id: String,
    pub account_name: String,
    /// The account's kind as stored (`"cash"`, `"bank"`, ...).
    pub account_type: String,
    pub account_default_asset_id: String,
    pub account_currency_code: String,
    /// The signed amount exactly as stored, as decimal text.
    pub amount: String,
    pub account_amount: Option<String>,
    pub fx_rate: Option<String>,
    pub asset_id: String,
    pub asset_code: String,
    pub booking_date: String,
    pub value_date: Option<String>,
    pub category_id: Option<String>,
    pub category_name: Option<String>,
    pub merchant_id: Option<String>,
    pub merchant_name: Option<String>,
    pub transfer_id: Option<String>,
    pub transfer_counterparty: Option<String>,
}

/// One page of a transaction list, plus the opaque cursor to the next page.
#[derive(Clone, Debug, PartialEq)]
pub struct TransactionPage {
    pub transactions: Vec<TransactionDto>,
    pub next_cursor: Option<String>,
}

/// One row an import could not insert, and why.
#[derive(Clone, Debug, PartialEq)]
pub struct ImportRowError {
    pub row_number: usize,
    pub reason: String,
}

/// The outcome of an import: rows inserted, plus every row rejected.
#[derive(Clone, Debug, PartialEq)]
pub struct ImportSummary {
    pub imported: usize,
    pub rejected: Vec<ImportRowError>,
}

/// One row extracted from a bank statement, awaiting review.
#[derive(Clone, Debug, PartialEq)]
pub struct ExtractedRowDto {
    pub row_number: usize,
    pub booking_date: String,
    pub value_date: Option<String>,
    pub amount: String,
    pub description: String,
    pub suggested_merchant_id: Option<String>,
    pub suggested_merchant_name: Option<String>,
}

/// The rows of a statement ready for review, plus the rows it could not read.
#[derive(Clone, Debug, PartialEq)]
pub struct StatementExtractionDto {
    pub rows: Vec<ExtractedRowDto>,
    pub rejected: Vec<ImportRowError>,
}

/// One reviewed statement row sent back for insertion (a blank id means
/// none).
#[derive(Clone, Debug, PartialEq)]
pub struct ConfirmedRowDto {
    pub booking_date: String,
    pub value_date: Option<String>,
    pub amount: String,
    pub category_id: String,
    pub merchant_id: String,
}

/// The text of an optional id.
pub open spec fn opt_id_text(id: Option<u128>) -> Option<Seq<char>> {
    match id {
        None => None,
        Some(i) => Some(uuid_text_spec(i)),
    }
}

/// The text of an optional decimal.
pub open spec fn opt_decimal_text(d: Option<Decimal>) -> Option<Seq<char>> {
    match d {
        None => None,
        Some(x) => Some(bd_text(x.m(), x.scale as int)),
    }
}

/// The text of an optional date.
pub open spec fn opt_date_text(d: Option<Date>) -> Option<Seq<char>> {
    match d {
        None => None,
        Some(x) => Some(iso_spec(x)),
    }
}

/// Whether `dto` renders `r`.
pub open spec fn dto_renders(dto: TransactionDto, r: TransactionRecord) -> bool {
    &&& dto.id@ == uuid_text_spec(r.id)
    &&& dto.account_id@ == uuid_text_spec(r.account_id)
    &&& dto.account_name@ == r.account_name@
    &&& dto.account_type@ == r.account_type@
    &&& dto.account_default_asset_id@ == uuid_text_spec(r.account_default_asset_id)
    &&& dto.account_currency_code@ == r.account_currency_code@
    &&& dto.amount@ == bd_text(r.amount.m(), r.amount.scale as int)
    &&& opt_string_view(dto.account_amount) == opt_decimal_text(r.account_amount)
    &&& opt_string_view(dto.fx_rate) == opt_decimal_text(r.fx_rate)
    &&& dto.asset_id@ == uuid_text_spec(r.asset_id)
    &&& dto.asset_code@ == r.asset_code@
    &&& dto.booking_date@ == iso_spec(r.booking_date)
    &&& opt_string_view(dto.value_date) == opt_date_text(r.value_date)
    &&& opt_string_view(dto.category_id) == opt_id_text(r.category_id)
    &&& opt_string_view(dto.category_name) == opt_string_view(r.category_name)
    &&& opt_string_view(dto.merchant_id) == opt_id_text(r.merchant_id)
    &&& opt_string_view(dto.merchant_name) == opt_string_view(r.merchant_name)
    &&& opt_string_view(dto.transfer_id) == opt_id_text(r.transfer_id)
    &&& opt_string_view(dto.transfer_counterparty) == opt_string_view(r.transfer_counterparty)
}

/// The text of an optional id.
fn id_text(id: Option<u128>) -> (r: Option<String>)
    ensures
        opt_string_view(r) == opt_id_text(id),
{
    match id {
        None => None,
        Some(i) => Some(uuid_text(i)),
    }
}

/// The text of an optional decimal.
fn decimal_text(d: Option<Decimal>) -> (r: Option<String>)
    ensures
        opt_string_view(r) == opt_decimal_text(d),
{
    match d {
        None => None,
        Some(x) => Some(x.to_text()),
    }
}

/// The text of an optional date.
fn date_text(d: Option<Date>) -> (r: Option<String>)
    requires
        d matches Some(x) ==> x.valid(),
    ensures
        opt_string_view(r) == opt_date_text(d),
{
    match d {
        None => None,
        Some(x) => Some(x.iso_text()),
    }
}

/// A copy of an optional string.
fn copy_text(s: &Option<String>) -> (r: Option<String>)
    ensures
        opt_string_view(r) == opt_string_view(*s),
{
    match s {
        None => None,
        Some(v) => Some(v.clone()),
    }
}

/// Render a stored transaction for the browser.
pub fn record_to_dto(record: &TransactionRecord) -> (r: TransactionDto)
    requires
        record.booking_date.valid(),
        record.value_date matches Some(v) ==> v.valid(),
    ensures
        dto_renders(r, *record),
{
    TransactionDto {
        id: uuid_text(record.id),
        account_id: uuid_text(record.account_id),
        account_name: record.account_name.clone(),
        account_type: record.account_type.clone(),
        account_default_asset_id: uuid_text(record.account_default_asset_id),
        account_currency_code: record.account_currency_code.clone(),
        amount: record.amount.to_text(),
        account_amount: decimal_text(dup_opt(&record.account_amount)),
        fx_rate: decimal_text(dup_opt(&record.fx_rate)),
        asset_id: uuid_text(record.asset_id),
        asset_code: record.asset_code.clone(),
        booking_date: record.booking_date.iso_text(),
        value_date: date_text(record.value_date),
        category_id: id_text(record.category_id),
        category_name: copy_text(&record.category_name),
        merchant_id: id_text(record.merchant_id),
        merchant_name: copy_text(&record.merchant_name),
        transfer_id: id_text(record.transfer_id),
        transfer_counterparty: copy_text(&record.transfer_counterparty),
    }
}

/// Render one page of stored transactions, with the next page's cursor as
/// text.
pub fn page_to_dto(page: &TransactionListPage) -> (r: TransactionPage)
    requires
        forall|i: int|
            0 <= i < page.records@.len() ==> (#[trigger] page.records@[i]).booking_date.valid() && (
            page.records@[i].value_date matches Some(v) ==> v.valid()),
        page.next matches Some(c) ==> c.0.valid(),
    ensures
        r.transactions@.len() == page.records@.len(),
        forall|i: int|
            0 <= i < r.transactions@.len() ==> dto_renders(
                #[trigger] r.transactions@[i],
                page.records@[i],
            ),
        match page.next {
            None => r.next_cursor is None,
            Some(c) => r.next_cursor matches Some(t) && t@ == cursor_text_spec(c),
        },
{
    let mut out: Vec<TransactionDto> = Vec::new();
    let mut i: usize = 0;
    while i < page.records.len()
        invariant
            i <= page.records@.len(),
            out@.len() == i,
            forall|k: int|
                0 <= k < page.records@.len() ==> (#[trigger] page.records@[k]).booking_date.valid()
                    && (page.records@[k].value_date matches Some(v) ==> v.valid()),
            forall|k: int| 0 <= k < i ==> dto_renders(#[trigger] out@[k], page.records@[k]),
        decreases page.records.len() - i,
    {
        out.push(record_to_dto(&page.records[i]));
        i = i + 1;
    }
    let next_cursor = match page.next {
        None => None,
        Some(c) => Some(encode_cursor(c)),
    };
    TransactionPage { transactions: out, next_cursor }
}

/// Whether `dto` reports the rejection `e`.
pub open spec fn rejection_renders(dto: ImportRowError, e: RowError) -> bool {
    dto.row_number == e.row_number && dto.reason@ == e.reason@
}

/// The rejected rows, for the browser, in the same order.
pub fn rejections_to_dto(rejected: &Vec<RowError>) -> (r: Vec<ImportRowError>)
    ensures
        r@.len() == rejected@.len(),
        forall|i: int| 0 <= i < r@.len() ==> rejection_renders(#[trigger] r@[i], rejected@[i]),
{
    let mut out: Vec<ImportRowError> = Vec::new();
    let mut i: usize = 0;
    while i < rejected.len()
        invariant
            i <= rejected@.len(),
            out@.len() == i,
            forall|k: int| 0 <= k < i ==> rejection_renders(#[trigger] out@[k], rejected@[k]),
        decreases rejected.len() - i,
    {
        let e = &rejected[i];
        out.push(ImportRowError { row_number: e.row_number, reason: e.reason.clone() });
        i = i + 1;
    }
    out
}

/// The outcome of an import, for the browser.
pub fn import_summary(outcome: &ImportOutcome) -> (r: ImportSummary)
    ensures
        r.imported == outcome.imported,
        r.rejected@.len() == outcome.rejected@.len(),
        forall|i: int|
            0 <= i < r.rejected@.len() ==> rejection_renders(
                #[trigger] r.rejected@[i],
                outcome.rejected@[i],
            ),
{
    ImportSummary { imported: outcome.imported, rejected: rejections_to_dto(&outcome.rejected) }
}

/// Whether `dto` renders the extracted row `row`.
pub open spec fn extracted_renders(dto: ExtractedRowDto, row: ResolvedRow) -> bool {
    &&& dto.row_number == row.row_number
    &&& dto.booking_date@ == iso_spec(row.booking_date)
    &&& opt_string_view(dto.value_date) == Some(iso_spec(row.value_date))
    &&& dto.amount@ == bd_text(row.amount.m(), row.amount.scale as int)
    &&& dto.description@ == row.description@
    &&& opt_string_view(dto.suggested_merchant_id) == opt_id_text(row.suggested_merchant_id)
    &&& opt_string_view(dto.suggested_merchant_name) == opt_string_view(row.suggested_merchant_name)
}

/// The text of an optional id.
fn opt_uuid_text(id: Option<u128>) -> (r: Option<String>)
    ensures
        opt_string_view(r) == opt_id_text(id),
{
    match id {
        None => None,
        Some(i) => Some(uuid_text(i)),
    }
}

/// A statement's extracted rows and rejections, for the browser to review.
pub fn extraction_to_dto(extraction: &StatementExtraction) -> (r: StatementExtractionDto)
    requires
        forall|i: int|
            0 <= i < extraction.rows@.len() ==> (#[trigger] extraction.rows@[i]).booking_date.valid()
                && extraction.rows@[i].value_date.valid(),
    ensures
        r.rows@.len() == extraction.rows@.len(),
        forall|i: int| 0 <= i < r.rows@.len() ==> extracted_renders(#[trigger] r.rows@[i], extraction.rows@[i]),
        r.rejected@.len() == extraction.rejected@.len(),
        forall|i: int|
            0 <= i < r.rejected@.len() ==> rejection_renders(
                #[trigger] r.rejected@[i],
                extraction.rejected@[i],
            ),
{
    let mut rows: Vec<ExtractedRowDto> = Vec::new();
    let mut i: usize = 0;
    while i < extraction.rows.len()
        invariant
            i <= extraction.rows@.len(),
            rows@.len() == i,
            forall|k: int|
                0 <= k < extraction.rows@.len() ==> (#[trigger] extraction.rows@[k]).booking_date.valid()
                    && extraction.rows@[k].value_date.valid(),
            forall|k: int| 0 <= k < i ==> extracted_renders(#[trigger] rows@[k], extraction.rows@[k]),
        decreases extraction.rows.len() - i,
    {
        let row = &extraction.rows[i];
        let name = match &row.suggested_merchant_name {
            None => None,
            Some(n) => Some(n.clone()),
        };
        rows.push(
            ExtractedRowDto {
                row_number: row.row_number,
                booking_date: row.booking_date.iso_text(),
                value_date: Some(row.value_date.iso_text()),
                amount: row.amount.to_text(),
                description: row.description.clone(),
                suggested_merchant_id: opt_uuid_text(row.suggested_merchant_id),
                suggested_merchant_name: name,
            },
        );
        i = i + 1;
    }
    StatementExtractionDto { rows, rejected: rejections_to_dto(&extraction.rejected) }
}

} // verus!
