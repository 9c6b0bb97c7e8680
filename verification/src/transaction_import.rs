//! CSV transaction import: the upload is read into a header row and data
//! records, the required and optional columns are resolved by name, and
//! every record is validated into a transaction write (to be inserted exactly
//! like a manually entered transaction) or the reason it cannot be imported.
//! A structurally broken file (no header, a required column missing) fails
//! the whole import; a bad individual row is only reported.

use vstd::prelude::*;

use crate::date::Date;
use crate::decimal::Decimal;
use crate::text::{append, lowercase, opt_string_view, str_eq, to_lowercase};
use crate::transactions::{
    amount_spec, date_field_spec, transaction_error_text, validate_amount, validate_booking_date,
    TransactionWrite,
};

verus! {

/// Why an import could not run at all.
#[derive(Debug, Clone, Copy, PartialEq, Eq)]
pub enum TransactionImportError {
    Unauthorized,
    NotFound,
    InvalidInput(&'static str),
    Internal,
}

impl TransactionImportError {
    /// The user-facing message for this error.
    pub fn message(&self) -> (r: &'static str)
        ensures
            r@ == (match *self {
                TransactionImportError::Unauthorized => "you must be signed in to do this"@,
                TransactionImportError::NotFound => "account not found"@,
                TransactionImportError::InvalidInput(message) => message@,
                TransactionImportError::Internal => "something went wrong"@,
            }),
    {
        match self {
            TransactionImportError::Unauthorized => "you must be signed in to do this",
            TransactionImportError::NotFound => "account not found",
            TransactionImportError::InvalidInput(message) => message,
            TransactionImportError::Internal => "something went wrong",
        }
    }
}

/// One CSV row that could not be imported, and why.
#[derive(Debug, Clone)]
pub struct RowError {
    pub row_number: usize,
    pub reason: String,
}

/// The outcome of a CSV import: rows inserted, plus every row that was
/// rejected, in file order.
#[derive(Debug, Clone)]
pub struct ImportOutcome {
    pub imported: usize,
    pub rejected: Vec<RowError>,
}

/// The texts of a list of strings.
pub open spec fn texts(v: Seq<String>) -> Seq<Seq<char>> {
    v.map_values(|s: String| s@)
}

/// The header row and the data records the `csv` crate reads from
/// `content` (every field trimmed, the first row taken as the header), each
/// record `None` when it could not be read; `None` when the header itself
/// cannot be read.
pub uninterp spec fn csv_table(content: Seq<char>) -> Option<
    (Seq<Seq<char>>, Seq<Option<Seq<Seq<char>>>>),
>;

/// The texts of the records a reader returned.
pub open spec fn record_texts(v: Seq<Option<Vec<String>>>) -> Seq<Option<Seq<Seq<char>>>> {
    v.map_values(
        |o: Option<Vec<String>>|
            match o {
                None => None,
                Some(r) => Some(texts(r@)),
            },
    )
}

/// Read `content` with `csv::ReaderBuilder::new().trim(csv::Trim::All)`:
/// its header row and every record, each record `None` when the reader
/// fails on it; `None` when the header row cannot be read.
#[verifier::external_body]
fn read_csv(content: &str) -> (r: Option<(Vec<String>, Vec<Option<Vec<String>>>)>)
    ensures
        r is None <==> csv_table(content@) is None,
        r matches Some(t) ==> csv_table(content@) == Some((texts(t.0@), record_texts(t.1@))),
{
    let mut reader = csv::ReaderBuilder::new().trim(csv::Trim::All).from_reader(content.as_bytes());
    let headers = reader.headers().ok()?.iter().map(|h| h.to_owned()).collect();
    let records = reader.records().map(
        |r| r.ok().map(|rec| rec.iter().map(|f| f.to_owned()).collect()),
    ).collect();
    Some((headers, records))
}

/// The CSV columns the import understands, resolved once from the header.
#[derive(Debug, Clone, Copy, PartialEq, Eq)]
pub struct Columns {
    pub date: usize,
    pub amount: usize,
    pub category: Option<usize>,
    pub merchant: Option<usize>,
}

/// The last position among the first `n` headers whose lowercase form is
/// `key` (a later duplicate replaces an earlier one).
pub open spec fn last_position(hs: Seq<Seq<char>>, key: Seq<char>, n: nat) -> Option<int>
    decreases n,
{
    if n == 0 {
        None
    } else if lowercase(hs[n - 1]) == key {
        Some(n - 1)
    } else {
        last_position(hs, key, (n - 1) as nat)
    }
}

/// An optional position as a `usize`.
pub open spec fn opt_usize(o: Option<int>) -> Option<usize> {
    match o {
        None => None,
        Some(i) => Some(i as usize),
    }
}

/// What [`resolve_columns`] gives for the header texts `hs`.
pub open spec fn columns_spec(hs: Seq<Seq<char>>) -> Result<Columns, TransactionImportError> {
    match last_position(hs, "date"@, hs.len()) {
        None => Err(TransactionImportError::InvalidInput("the CSV file must have a \"date\" column")),
        Some(d) => match last_position(hs, "amount"@, hs.len()) {
            None => Err(
                TransactionImportError::InvalidInput("the CSV file must have an \"amount\" column"),
            ),
            Some(a) => Ok(
                Columns {
                    date: d as usize,
                    amount: a as usize,
                    category: opt_usize(last_position(hs, "category"@, hs.len())),
                    merchant: opt_usize(last_position(hs, "merchant"@, hs.len())),
                },
            ),
        },
    }
}

proof fn lemma_last_position_bound(hs: Seq<Seq<char>>, key: Seq<char>, n: nat)
    ensures
        last_position(hs, key, n) matches Some(i) ==> 0 <= i < n,
    decreases n,
{
    if n > 0 {
        lemma_last_position_bound(hs, key, (n - 1) as nat);
    }
}

/// Resolve the required and optional column positions by header name,
/// case-insensitively. Fails only if a required column is entirely absent.
pub fn resolve_columns(headers: &Vec<String>) -> (r: Result<Columns, TransactionImportError>)
    ensures
        r == columns_spec(texts(headers@)),
{
    let ghost hs = texts(headers@);
    let mut date: Option<usize> = None;
    let mut amount: Option<usize> = None;
    let mut category: Option<usize> = None;
    let mut merchant: Option<usize> = None;
    let mut i: usize = 0;
    while i < headers.len()
        invariant
            i <= headers.len(),
            hs == texts(headers@),
            date == opt_usize(last_position(hs, "date"@, i as nat)),
            amount == opt_usize(last_position(hs, "amount"@, i as nat)),
            category == opt_usize(last_position(hs, "category"@, i as nat)),
            merchant == opt_usize(last_position(hs, "merchant"@, i as nat)),
        decreases headers.len() - i,
    {
        let name = to_lowercase(headers[i].as_str());
        assert(hs[i as int] == headers@[i as int]@);
        if str_eq(name.as_str(), "date") {
            date = Some(i);
        }
        if str_eq(name.as_str(), "amount") {
            amount = Some(i);
        }
        if str_eq(name.as_str(), "category") {
            category = Some(i);
        }
        if str_eq(name.as_str(), "merchant") {
            merchant = Some(i);
        }
        i = i + 1;
    }
    proof {
        lemma_last_position_bound(hs, "date"@, hs.len());
        lemma_last_position_bound(hs, "amount"@, hs.len());
    }
    let date = match date {
        Some(d) => d,
        None => {
            return Err(TransactionImportError::InvalidInput("the CSV file must have a \"date\" column"))
        },
    };
    let amount = match amount {
        Some(a) => a,
        None => {
            return Err(
                TransactionImportError::InvalidInput("the CSV file must have an \"amount\" column"),
            )
        },
    };
    Ok(Columns { date, amount, category, merchant })
}

/// A column's cell for a record: `None` for a missing column or a blank
/// cell.
pub open spec fn cell_spec(rec: Seq<Seq<char>>, index: Option<usize>) -> Option<Seq<char>> {
    match index {
        None => None,
        Some(p) => if p < rec.len() && rec[p as int].len() > 0 {
            Some(rec[p as int])
        } else {
            None
        },
    }
}

/// A column's cell value for this row, or `None` for a missing column or a
/// blank cell (the reader already trims every field).
pub fn cell(record: &Vec<String>, index: Option<usize>) -> (r: Option<String>)
    ensures
        opt_string_view(r) == cell_spec(texts(record@), index),
{
    match index {
        None => None,
        Some(p) => {
            if p < record.len() && !record[p].as_str().is_empty() {
                Some(record[p].clone())
            } else {
                None
            }
        },
    }
}

/// A case-insensitive `name -> id` lookup: each key is a lowercased name, and
/// no key occurs twice.
#[derive(Debug, Clone)]
pub struct NameIndex {
    pub entries: Vec<(String, u128)>,
}

/// The `(key, id)` pairs of an index.
pub open spec fn entry_texts(v: Seq<(String, u128)>) -> Seq<(Seq<char>, u128)> {
    v.map_values(|e: (String, u128)| (e.0@, e.1))
}

/// Whether `key` is among the keys of `acc`.
pub open spec fn has_name(acc: Seq<(Seq<char>, u128)>, key: Seq<char>) -> bool {
    exists|j: int| 0 <= j < acc.len() && acc[j].0 == key
}

/// The index of the first `n` `(name, id)` pairs: keyed by the lowercased
/// name, the first pair winning on a case-only collision.
pub open spec fn index_prefix(pairs: Seq<(Seq<char>, u128)>, n: nat) -> Seq<(Seq<char>, u128)>
    decreases n,
{
    if n == 0 {
        Seq::empty()
    } else {
        let acc = index_prefix(pairs, (n - 1) as nat);
        let key = lowercase(pairs[n - 1].0);
        if has_name(acc, key) {
            acc
        } else {
            acc.push((key, pairs[n - 1].1))
        }
    }
}

/// The id stored under `key`, among the first `n` entries.
pub open spec fn lookup_name(entries: Seq<(Seq<char>, u128)>, key: Seq<char>, n: nat) -> Option<
    u128,
>
    decreases n,
{
    if n == 0 {
        None
    } else {
        match lookup_name(entries, key, (n - 1) as nat) {
            Some(id) => Some(id),
            None => if entries[n - 1].0 == key {
                Some(entries[n - 1].1)
            } else {
                None
            },
        }
    }
}

/// Build a case-insensitive `name -> id` lookup. On a case-only collision the
/// first pair wins.
pub fn name_index(names_and_ids: Vec<(String, u128)>) -> (r: NameIndex)
    ensures
        entry_texts(r.entries@) == index_prefix(entry_texts(names_and_ids@), names_and_ids@.len()),
{
    let ghost pairs = entry_texts(names_and_ids@);
    let mut entries: Vec<(String, u128)> = Vec::new();
    let mut i: usize = 0;
    assert(entry_texts(entries@) =~= Seq::empty());
    while i < names_and_ids.len()
        invariant
            i <= names_and_ids.len(),
            pairs == entry_texts(names_and_ids@),
            entry_texts(entries@) == index_prefix(pairs, i as nat),
        decreases names_and_ids.len() - i,
    {
        let key = to_lowercase(names_and_ids[i].0.as_str());
        let id = names_and_ids[i].1;
        let ghost acc = index_prefix(pairs, i as nat);
        assert(pairs[i as int] == (names_and_ids@[i as int].0@, names_and_ids@[i as int].1));
        let mut j: usize = 0;
        let mut found = false;
        while j < entries.len()
            invariant
                j <= entries.len(),
                acc == entry_texts(entries@),
                found == (exists|k: int| 0 <= k < j && acc[k].0 == key@),
            decreases entries.len() - j,
        {
            assert(acc[j as int] == (entries@[j as int].0@, entries@[j as int].1));
            if str_eq(entries[j].0.as_str(), key.as_str()) {
                found = true;
            }
            j = j + 1;
        }
        assert(found == has_name(acc, key@));
        if !found {
            let ghost before = entry_texts(entries@);
            entries.push((key, id));
            assert(entry_texts(entries@) =~= before.push((key@, id)));
        }
        i = i + 1;
    }
    NameIndex { entries }
}

proof fn lemma_lookup_stays(entries: Seq<(Seq<char>, u128)>, key: Seq<char>, i: nat, n: nat)
    requires
        i <= n,
        lookup_name(entries, key, i) is Some,
    ensures
        lookup_name(entries, key, n) == lookup_name(entries, key, i),
    decreases n - i,
{
    if i < n {
        lemma_lookup_stays(entries, key, i, (n - 1) as nat);
    }
}

impl NameIndex {
    /// The id stored under the lowercased `key`.
    pub fn get(&self, key: &str) -> (r: Option<u128>)
        ensures
            r == lookup_name(entry_texts(self.entries@), key@, self.entries@.len()),
    {
        let ghost es = entry_texts(self.entries@);
        let mut i: usize = 0;
        while i < self.entries.len()
            invariant
                i <= self.entries.len(),
                es == entry_texts(self.entries@),
                lookup_name(es, key@, i as nat) is None,
            decreases self.entries.len() - i,
        {
            assert(es[i as int] == (self.entries@[i as int].0@, self.entries@[i as int].1));
            if str_eq(self.entries[i].0.as_str(), key) {
                proof {
                    lemma_lookup_stays(es, key@, (i + 1) as nat, es.len());
                }
                return Some(self.entries[i].1);
            }
            i = i + 1;
        }
        None
    }
}

/// A record's field at `p`, or the empty text when there is none.
pub open spec fn field_or_empty(rec: Seq<Seq<char>>, p: usize) -> Seq<char> {
    if p < rec.len() {
        rec[p as int]
    } else {
        Seq::empty()
    }
}

/// The reason a named category or merchant is rejected.
pub open spec fn unknown_name_text(what: Seq<char>, name: Seq<char>) -> Seq<char> {
    what + " \""@ + name + "\" does not exist"@
}

/// What an optional name column resolves to: absent when blank, the id its
/// lowercased name is stored under, or the reason it is unknown.
pub open spec fn name_cell_spec(
    rec: Seq<Seq<char>>,
    index: Option<usize>,
    names: Seq<(Seq<char>, u128)>,
    what: Seq<char>,
) -> Result<Option<u128>, Seq<char>> {
    match cell_spec(rec, index) {
        None => Ok(None),
        Some(name) => match lookup_name(names, lowercase(name), names.len()) {
            Some(id) => Ok(Some(id)),
            None => Err(unknown_name_text(what, name)),
        },
    }
}

/// What [`resolve_row`] gives for a record: the amount, then the date, then
/// the category, then the merchant, the first failure reported.
pub open spec fn row_spec(
    rec: Seq<Seq<char>>,
    columns: Columns,
    asset_id: u128,
    categories: Seq<(Seq<char>, u128)>,
    merchants: Seq<(Seq<char>, u128)>,
) -> Result<TransactionWrite, Seq<char>> {
    match amount_spec(field_or_empty(rec, columns.amount)) {
        Err(e) => Err(transaction_error_text(e)),
        Ok(amount) => match date_field_spec(
            field_or_empty(rec, columns.date),
            "booking date is invalid",
        ) {
            Err(e) => Err(transaction_error_text(e)),
            Ok(booking_date) => match name_cell_spec(rec, columns.category, categories, "category"@) {
                Err(m) => Err(m),
                Ok(category_id) => match name_cell_spec(
                    rec,
                    columns.merchant,
                    merchants,
                    "merchant"@,
                ) {
                    Err(m) => Err(m),
                    Ok(merchant_id) => Ok(
                        TransactionWrite {
                            asset_id,
                            amount,
                            booking_date,
                            value_date: None,
                            category_id,
                            merchant_id,
                        },
                    ),
                },
            },
        },
    }
}

/// The text of a static message as an owned `String`.
fn owned(s: &str) -> (r: String)
    ensures
        r@ == s@,
{
    let mut r = String::new();
    append(&mut r, s);
    assert(r@ =~= s@);
    r
}

/// Resolve an optional name column against `names`.
fn resolve_name_cell(
    record: &Vec<String>,
    index: Option<usize>,
    names: &NameIndex,
    what: &str,
) -> (r: Result<Option<u128>, String>)
    ensures
        match r {
            Ok(id) => name_cell_spec(texts(record@), index, entry_texts(names.entries@), what@)
                == Ok::<Option<u128>, Seq<char>>(id),
            Err(m) => name_cell_spec(texts(record@), index, entry_texts(names.entries@), what@)
                == Err::<Option<u128>, Seq<char>>(m@),
        },
{
    match cell(record, index) {
        None => Ok(None),
        Some(name) => {
            let key = to_lowercase(name.as_str());
            match names.get(key.as_str()) {
                Some(id) => Ok(Some(id)),
                None => {
                    let mut m = String::new();
                    append(&mut m, what);
                    append(&mut m, " \"");
                    append(&mut m, name.as_str());
                    append(&mut m, "\" does not exist");
                    assert(m@ =~= unknown_name_text(what@, name@));
                    Err(m)
                },
            }
        },
    }
}

/// A record's field at `p`, or `""`.
fn field_or_blank(record: &Vec<String>, p: usize) -> (r: &str)
    ensures
        r@ == field_or_empty(texts(record@), p),
{
    proof {
        reveal_strlit("");
    }
    if p < record.len() {
        record[p].as_str()
    } else {
        ""
    }
}

proof fn lemma_lookup_name_found(entries: Seq<(Seq<char>, u128)>, key: Seq<char>, n: nat)
    requires
        n <= entries.len(),
    ensures
        lookup_name(entries, key, n) is None <==> !(exists|j: int|
            0 <= j < n && (#[trigger] entries[j]).0 == key),
        lookup_name(entries, key, n) matches Some(id) ==> exists|j: int|
            0 <= j < n && (#[trigger] entries[j]).0 == key && entries[j].1 == id,
    decreases n,
{
    if n > 0 {
        lemma_lookup_name_found(entries, key, (n - 1) as nat);
        if lookup_name(entries, key, (n - 1) as nat) is None && entries[n - 1].0 == key {
            assert(entries[n - 1 as int].0 == key);
        }
        if lookup_name(entries, key, (n - 1) as nat) is None && entries[n - 1].0 != key {
            assert forall|j: int| 0 <= j < n implies (#[trigger] entries[j]).0 != key by {
                if j < n - 1 {
                    assert(!(exists|j: int| 0 <= j < n - 1 && (#[trigger] entries[j]).0 == key));
                }
            }
        }
    }
}

/// The non-blank text of an optional column in a record.
pub open spec fn named_cell(rec: Seq<Seq<char>>, index: Option<usize>) -> Option<Seq<char>> {
    match index {
        Some(p) => if p < rec.len() && rec[p as int].len() > 0 {
            Some(rec[p as int])
        } else {
            None
        },
        None => None,
    }
}

/// Whether some index entry is keyed by `key`, with id `id`.
pub open spec fn indexed(names: Seq<(Seq<char>, u128)>, key: Seq<char>, id: u128) -> bool {
    exists|j: int| 0 <= j < names.len() && (#[trigger] names[j]).0 == key && names[j].1 == id
}

/// What importing a record does: an imported record is written on the given
/// account with the amount and booking date its cells spell, and names, for each, exactly the id its lowercased
/// text is indexed under, and no id only when the cell is blank or absent;
/// a non-blank cell whose lowercased text is not in the index rejects the
/// record (with `<what> "<name>" does not exist` once the amount and date
/// are valid).
pub proof fn lemma_row_names_resolved(
    rec: Seq<Seq<char>>,
    columns: Columns,
    asset_id: u128,
    categories: Seq<(Seq<char>, u128)>,
    merchants: Seq<(Seq<char>, u128)>,
)
    ensures
        row_spec(rec, columns, asset_id, categories, merchants) matches Ok(w) ==> {
            &&& w.asset_id == asset_id
            &&& amount_spec(field_or_empty(rec, columns.amount)) == Ok::<
                Decimal,
                crate::transactions::TransactionError,
            >(w.amount)
            &&& date_field_spec(field_or_empty(rec, columns.date), "booking date is invalid")
                == Ok::<crate::date::Date, crate::transactions::TransactionError>(w.booking_date)
            &&& w.value_date is None
            &&& (w.category_id is None <==> named_cell(rec, columns.category) is None)
            &&& (w.merchant_id is None <==> named_cell(rec, columns.merchant) is None)
            &&& (w.category_id matches Some(id) ==> indexed(
                categories,
                lowercase(named_cell(rec, columns.category)->0),
                id,
            ))
            &&& (w.merchant_id matches Some(id) ==> indexed(
                merchants,
                lowercase(named_cell(rec, columns.merchant)->0),
                id,
            ))
        },
        named_cell(rec, columns.category) matches Some(c) && !(exists|j: int|
            0 <= j < categories.len() && (#[trigger] categories[j]).0 == lowercase(c))
            ==> row_spec(rec, columns, asset_id, categories, merchants) is Err,
        named_cell(rec, columns.merchant) matches Some(c) && !(exists|j: int|
            0 <= j < merchants.len() && (#[trigger] merchants[j]).0 == lowercase(c))
            ==> row_spec(rec, columns, asset_id, categories, merchants) is Err,
        named_cell(rec, columns.merchant) matches Some(c) && !(exists|j: int|
            0 <= j < merchants.len() && (#[trigger] merchants[j]).0 == lowercase(c)) && amount_spec(
            field_or_empty(rec, columns.amount),
        ) is Ok && date_field_spec(field_or_empty(rec, columns.date), "booking date is invalid") is Ok
            && name_cell_spec(rec, columns.category, categories, "category"@) is Ok ==> row_spec(
            rec,
            columns,
            asset_id,
            categories,
            merchants,
        ) == Err::<TransactionWrite, Seq<char>>(
            unknown_name_text("merchant"@, named_cell(rec, columns.merchant)->0),
        ),
{
    match named_cell(rec, columns.category) {
        Some(c) => lemma_lookup_name_found(categories, lowercase(c), categories.len()),
        None => {},
    }
    match named_cell(rec, columns.merchant) {
        Some(c) => lemma_lookup_name_found(merchants, lowercase(c), merchants.len()),
        None => {},
    }
}

/// Validate one CSV record into a [`TransactionWrite`] in the account's own
/// currency, or the reason it cannot be imported.
pub fn resolve_row(
    record: &Vec<String>,
    columns: &Columns,
    asset_id: u128,
    category_index: &NameIndex,
    merchant_index: &NameIndex,
) -> (r: Result<TransactionWrite, String>)
    ensures
        match r {
            Ok(w) => row_spec(
                texts(record@),
                *columns,
                asset_id,
                entry_texts(category_index.entries@),
                entry_texts(merchant_index.entries@),
            ) == Ok::<TransactionWrite, Seq<char>>(w),
            Err(m) => row_spec(
                texts(record@),
                *columns,
                asset_id,
                entry_texts(category_index.entries@),
                entry_texts(merchant_index.entries@),
            ) == Err::<TransactionWrite, Seq<char>>(m@),
        },
{
    let amount = match validate_amount(field_or_blank(record, columns.amount)) {
        Ok(a) => a,
        Err(e) => return Err(owned(e.message())),
    };
    let booking_date = match validate_booking_date(field_or_blank(record, columns.date)) {
        Ok(d) => d,
        Err(e) => return Err(owned(e.message())),
    };
    let category_id = resolve_name_cell(record, columns.category, category_index, "category")?;
    let merchant_id = resolve_name_cell(record, columns.merchant, merchant_index, "merchant")?;
    Ok(
        TransactionWrite {
            asset_id,
            amount,
            booking_date,
            value_date: None,
            category_id,
            merchant_id,
        },
    )
}

/// One data row's fate before insertion: the write to insert, or why the row
/// is rejected.
#[derive(Debug)]
pub struct PlannedRow {
    /// 1-based, counting the header as row 1.
    pub row_number: usize,
    pub outcome: Result<TransactionWrite, String>,
}

/// What a planned row's outcome says.
pub open spec fn planned_view(p: PlannedRow) -> (usize, Result<TransactionWrite, Seq<char>>) {
    (
        p.row_number,
        match p.outcome {
            Ok(w) => Ok(w),
            Err(m) => Err(m@),
        },
    )
}

/// What the data record at position `i` becomes.
pub open spec fn plan_spec(
    rec: Option<Seq<Seq<char>>>,
    i: int,
    columns: Columns,
    asset_id: u128,
    categories: Seq<(Seq<char>, u128)>,
    merchants: Seq<(Seq<char>, u128)>,
) -> (usize, Result<TransactionWrite, Seq<char>>) {
    (
        (i + 2) as usize,
        match rec {
            None => Err("could not read this row"@),
            Some(r) => row_spec(r, columns, asset_id, categories, merchants),
        },
    )
}

/// Read `csv_content`, resolve its columns, and plan every data record: the
/// write to insert on the account (in `asset_id`, its own currency), or why
/// the row is rejected. Rows are numbered as a spreadsheet shows them, the
/// header being row 1. A file without a readable header, or missing a
/// required column, is rejected as a whole.
pub fn plan_import(
    csv_content: &str,
    asset_id: u128,
    category_index: &NameIndex,
    merchant_index: &NameIndex,
) -> (r: Result<Vec<PlannedRow>, TransactionImportError>)
    ensures
        match csv_table(csv_content@) {
            None => r == Err::<Vec<PlannedRow>, TransactionImportError>(
                TransactionImportError::InvalidInput("the CSV file has no header row"),
            ),
            Some(t) => match columns_spec(t.0) {
                Err(e) => r == Err::<Vec<PlannedRow>, TransactionImportError>(e),
                Ok(c) => (r matches Ok(rows) && rows@.len() == t.1.len() && forall|i: int|
                    0 <= i < rows@.len() ==> planned_view(#[trigger] rows@[i]) == plan_spec(
                        t.1[i],
                        i,
                        c,
                        asset_id,
                        entry_texts(category_index.entries@),
                        entry_texts(merchant_index.entries@),
                    )) || (t.1.len() > usize::MAX - 2 && r == Err::<
                    Vec<PlannedRow>,
                    TransactionImportError,
                >(TransactionImportError::Internal)),
            },
        },
{
    let (headers, records) = match read_csv(csv_content) {
        Some(t) => t,
        None => return Err(TransactionImportError::InvalidInput("the CSV file has no header row")),
    };
    let columns = resolve_columns(&headers)?;
    if records.len() > usize::MAX - 2 {
        return Err(TransactionImportError::Internal);
    }
    let ghost recs = record_texts(records@);
    let mut rows: Vec<PlannedRow> = Vec::new();
    let mut i: usize = 0;
    while i < records.len()
        invariant
            i <= records.len() <= usize::MAX - 2,
            recs == record_texts(records@),
            rows@.len() == i,
            forall|k: int|
                0 <= k < i ==> planned_view(#[trigger] rows@[k]) == plan_spec(
                    recs[k],
                    k,
                    columns,
                    asset_id,
                    entry_texts(category_index.entries@),
                    entry_texts(merchant_index.entries@),
                ),
        decreases records.len() - i,
    {
        let row_number = i + 2;
        let outcome = match &records[i] {
            None => Err(owned("could not read this row")),
            Some(record) => resolve_row(record, &columns, asset_id, category_index, merchant_index),
        };
        let p = PlannedRow { row_number, outcome };
        assert(planned_view(p) == plan_spec(
            recs[i as int],
            i as int,
            columns,
            asset_id,
            entry_texts(category_index.entries@),
            entry_texts(merchant_index.entries@),
        ));
        rows.push(p);
        i = i + 1;
    }
    Ok(rows)
}

impl ImportOutcome {
    /// Nothing imported, nothing rejected.
    pub fn new() -> (r: ImportOutcome)
        ensures
            r.imported == 0,
            r.rejected@.len() == 0,
    {
        ImportOutcome { imported: 0, rejected: Vec::new() }
    }

    /// Record one row's insertion: counted as imported when it succeeded,
    /// otherwise rejected with the reason.
    pub fn record(&mut self, row_number: usize, result: Result<(), String>)
        requires
            old(self).imported < usize::MAX,
        ensures
            result is Ok ==> final(self).imported == old(self).imported + 1,
            result is Ok ==> final(self).rejected@ == old(self).rejected@,
            result is Err ==> final(self).imported == old(self).imported,
            result matches Err(reason) ==> final(self).rejected@ == old(self).rejected@.push(
                RowError { row_number, reason },
            ),
    {
        match result {
            Ok(()) => self.imported = self.imported + 1,
            Err(reason) => {
                self.rejected.push(RowError { row_number, reason });
            },
        }
    }
}

} // verus!
