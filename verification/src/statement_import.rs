//! Bank-statement import (Deblock, a French neobank): the text side of
//! reading a statement's table, and the re-validation of the rows a user
//! confirms.
//!
//! Statements come in two languages, told apart by which header row
//! matches:
//! - French: dates spelled out with the year (`"29 avril 2024"`), amounts
//!   with a comma decimal separator (`"9,99"`).
//! - English: dates with no year anywhere in the statement (`"June 01"`), so
//!   the caller supplies the year; a period decimal separator and an
//!   apostrophe (ASCII or typographic) grouping thousands (`"1'124.61"`).
//!
//! A row's direction (debit or credit) is decided only by the column its
//! amount was printed in, never by the wording of its description.

use vstd::prelude::*;

use crate::date::{from_ymd_spec, Date};
use crate::decimal::Decimal;
use crate::text::{
    append, find_char, lowercase, opt_string_view, opt_view, optional_nonblank_spec,
    optional_trimmed, parse_i32, parse_i32_spec, parse_u32, parse_u32_spec, replace_all,
    replace_spec, split_whitespace, split_ws_spec, str_eq, string_texts, to_lowercase, trim,
    trim_spec,
};
use crate::transaction_import::{PlannedRow, RowError, planned_view};
use crate::transactions::{
    amount_spec, date_field_spec, optional_date_spec, optional_id_spec, parse_optional_id,
    transaction_error_text, validate_amount, validate_booking_date, validate_value_date,
    TransactionWrite,
};

verus! {

/// Why a statement import could not run at all.
#[derive(Debug, Clone, Copy, PartialEq, Eq)]
pub enum StatementImportError {
    Unauthorized,
    NotFound,
    InvalidInput(&'static str),
    Internal,
}

impl StatementImportError {
    /// The user-facing message for this error.
    pub fn message(&self) -> (r: &'static str)
        ensures
            r@ == (match *self {
                StatementImportError::Unauthorized => "you must be signed in to do this"@,
                StatementImportError::NotFound => "account not found"@,
                StatementImportError::InvalidInput(message) => message@,
                StatementImportError::Internal => "something went wrong"@,
            }),
    {
        match self {
            StatementImportError::Unauthorized => "you must be signed in to do this",
            StatementImportError::NotFound => "account not found",
            StatementImportError::InvalidInput(message) => message,
            StatementImportError::Internal => "something went wrong",
        }
    }
}

/// Which of the two header and format variants a statement matched.
#[derive(Debug, Clone, Copy, PartialEq, Eq)]
pub enum Locale {
    French,
    English,
}

/// `(printed header label, canonical column key)` for each locale. The
/// canonical key is what a row's cells are looked up by, whichever language
/// matched.
pub open spec fn header_labels_spec(locale: Locale) -> Seq<(Seq<char>, Seq<char>)> {
    match locale {
        Locale::French => seq![
            ("Date"@, "date"@),
            ("Valeur"@, "value_date"@),
            ("Opération"@, "description"@),
            ("Débit"@, "debit"@),
            ("Crédit"@, "credit"@),
        ],
        Locale::English => seq![
            ("Date"@, "date"@),
            ("Value date"@, "value_date"@),
            ("Transaction"@, "description"@),
            ("Debit"@, "debit"@),
            ("Credit"@, "credit"@),
        ],
    }
}

/// The views of a label list.
pub open spec fn label_texts(v: Seq<(&'static str, &'static str)>) -> Seq<(Seq<char>, Seq<char>)> {
    v.map_values(|l: (&'static str, &'static str)| (l.0@, l.1@))
}

/// The header labels of `locale`, in column order.
pub fn header_labels(locale: Locale) -> (r: Vec<(&'static str, &'static str)>)
    ensures
        label_texts(r@) == header_labels_spec(locale),
{
    let r = match locale {
        Locale::French => vec![
            ("Date", "date"),
            ("Valeur", "value_date"),
            ("Opération", "description"),
            ("Débit", "debit"),
            ("Crédit", "credit"),
        ],
        Locale::English => vec![
            ("Date", "date"),
            ("Value date", "value_date"),
            ("Transaction", "description"),
            ("Debit", "debit"),
            ("Credit", "credit"),
        ],
    };
    assert(label_texts(r@) =~= header_labels_spec(locale));
    r
}

/// The month a French month name denotes.
pub open spec fn french_month_spec(name: Seq<char>) -> Option<u32> {
    if name == "janvier"@ {
        Some(1)
    } else if name == "février"@ {
        Some(2)
    } else if name == "mars"@ {
        Some(3)
    } else if name == "avril"@ {
        Some(4)
    } else if name == "mai"@ {
        Some(5)
    } else if name == "juin"@ {
        Some(6)
    } else if name == "juillet"@ {
        Some(7)
    } else if name == "août"@ {
        Some(8)
    } else if name == "septembre"@ {
        Some(9)
    } else if name == "octobre"@ {
        Some(10)
    } else if name == "novembre"@ {
        Some(11)
    } else if name == "décembre"@ {
        Some(12)
    } else {
        None
    }
}

/// The month an English month name denotes.
pub open spec fn english_month_spec(name: Seq<char>) -> Option<u32> {
    if name == "January"@ {
        Some(1)
    } else if name == "February"@ {
        Some(2)
    } else if name == "March"@ {
        Some(3)
    } else if name == "April"@ {
        Some(4)
    } else if name == "May"@ {
        Some(5)
    } else if name == "June"@ {
        Some(6)
    } else if name == "July"@ {
        Some(7)
    } else if name == "August"@ {
        Some(8)
    } else if name == "September"@ {
        Some(9)
    } else if name == "October"@ {
        Some(10)
    } else if name == "November"@ {
        Some(11)
    } else if name == "December"@ {
        Some(12)
    } else {
        None
    }
}

/// The month a French month name denotes (the accented spelling only).
pub fn french_month(name: &str) -> (r: Option<u32>)
    ensures
        r == french_month_spec(name@),
{
    if str_eq(name, "janvier") {
        Some(1)
    } else if str_eq(name, "février") {
        Some(2)
    } else if str_eq(name, "mars") {
        Some(3)
    } else if str_eq(name, "avril") {
        Some(4)
    } else if str_eq(name, "mai") {
        Some(5)
    } else if str_eq(name, "juin") {
        Some(6)
    } else if str_eq(name, "juillet") {
        Some(7)
    } else if str_eq(name, "août") {
        Some(8)
    } else if str_eq(name, "septembre") {
        Some(9)
    } else if str_eq(name, "octobre") {
        Some(10)
    } else if str_eq(name, "novembre") {
        Some(11)
    } else if str_eq(name, "décembre") {
        Some(12)
    } else {
        None
    }
}

/// The month an English month name denotes.
pub fn english_month(name: &str) -> (r: Option<u32>)
    ensures
        r == english_month_spec(name@),
{
    if str_eq(name, "January") {
        Some(1)
    } else if str_eq(name, "February") {
        Some(2)
    } else if str_eq(name, "March") {
        Some(3)
    } else if str_eq(name, "April") {
        Some(4)
    } else if str_eq(name, "May") {
        Some(5)
    } else if str_eq(name, "June") {
        Some(6)
    } else if str_eq(name, "July") {
        Some(7)
    } else if str_eq(name, "August") {
        Some(8)
    } else if str_eq(name, "September") {
        Some(9)
    } else if str_eq(name, "October") {
        Some(10)
    } else if str_eq(name, "November") {
        Some(11)
    } else if str_eq(name, "December") {
        Some(12)
    } else {
        None
    }
}

/// A French `"29 avril 2024"` date: exactly three whitespace-separated
/// tokens, a day, a French month name and a year, naming an existing day.
pub open spec fn french_date_spec(text: Seq<char>) -> Option<Date> {
    let w = split_ws_spec(text);
    if w.len() != 3 {
        None
    } else {
        match (parse_u32_spec(w[0]), french_month_spec(w[1]), parse_i32_spec(w[2])) {
            (Some(d), Some(m), Some(y)) => from_ymd_spec(y as int, m as int, d as int),
            _ => None,
        }
    }
}

/// An English `"June 01"` date in `year`: exactly two whitespace-separated
/// tokens, an English month name and a day, naming an existing day.
pub open spec fn english_date_spec(text: Seq<char>, year: i32) -> Option<Date> {
    let w = split_ws_spec(text);
    if w.len() != 2 {
        None
    } else {
        match (english_month_spec(w[0]), parse_u32_spec(w[1])) {
            (Some(m), Some(d)) => from_ymd_spec(year as int, m as int, d as int),
            _ => None,
        }
    }
}

/// Parse a French `"29 avril 2024"`-style date (day, month name, year).
/// `None` on any unrecognized shape or month name.
pub fn parse_french_date(text: &str) -> (r: Option<Date>)
    ensures
        r == french_date_spec(text@),
        r matches Some(d) ==> d.valid(),
{
    let parts = split_whitespace(text);
    if parts.len() != 3 {
        return None;
    }
    assert(string_texts(parts@)[0] == parts@[0]@);
    assert(string_texts(parts@)[1] == parts@[1]@);
    assert(string_texts(parts@)[2] == parts@[2]@);
    let day = match parse_u32(parts[0].as_str()) {
        Some(d) => d,
        None => return None,
    };
    let month = match french_month(parts[1].as_str()) {
        Some(m) => m,
        None => return None,
    };
    let year = match parse_i32(parts[2].as_str()) {
        Some(y) => y,
        None => return None,
    };
    Date::from_ymd(year, month, day)
}

/// Parse an English `"June 01"`-style date (month name, day) in the
/// caller-supplied `year`, which this statement format never prints.
pub fn parse_english_date(text: &str, year: i32) -> (r: Option<Date>)
    ensures
        r == english_date_spec(text@, year),
        r matches Some(d) ==> d.valid(),
{
    let parts = split_whitespace(text);
    if parts.len() != 2 {
        return None;
    }
    assert(string_texts(parts@)[0] == parts@[0]@);
    assert(string_texts(parts@)[1] == parts@[1]@);
    let month = match english_month(parts[0].as_str()) {
        Some(m) => m,
        None => return None,
    };
    let day = match parse_u32(parts[1].as_str()) {
        Some(d) => d,
        None => return None,
    };
    Date::from_ymd(year, month, day)
}

/// `"9,99"` to `"9.99"`: trimmed, every comma made a period.
pub open spec fn normalize_fr_spec(text: Seq<char>) -> Seq<char> {
    trim_spec(text).map_values(
        |c: char|
            if c == ',' {
                '.'
            } else {
                c
            },
    )
}

/// `s` with every ASCII or typographic apostrophe removed.
pub open spec fn drop_apostrophes(s: Seq<char>) -> Seq<char>
    decreases s.len(),
{
    if s.len() == 0 {
        s
    } else {
        let rest = drop_apostrophes(s.drop_last());
        if s.last() == '\'' || s.last() == '\u{2019}' {
            rest
        } else {
            rest.push(s.last())
        }
    }
}

/// `"1'124.61"` to `"1124.61"`: trimmed, every ASCII or typographic
/// apostrophe removed.
pub open spec fn normalize_en_spec(text: Seq<char>) -> Seq<char> {
    drop_apostrophes(trim_spec(text))
}

/// French comma decimal separator to a period (`"9,99"` to `"9.99"`).
pub fn normalize_amount_fr(text: &str) -> (r: String)
    ensures
        r@ == normalize_fr_spec(text@),
{
    let v = crate::text::chars_of(trim(text).as_str());
    let mut out: Vec<char> = Vec::new();
    let mut i: usize = 0;
    while i < v.len()
        invariant
            i <= v@.len(),
            v@ == trim_spec(text@),
            out@ == v@.take(i as int).map_values(
                |c: char|
                    if c == ',' {
                        '.'
                    } else {
                        c
                    },
            ),
        decreases v.len() - i,
    {
        let c = v[i];
        if c == ',' {
            out.push('.');
        } else {
            out.push(c);
        }
        i = i + 1;
        assert(out@ =~= v@.take(i as int).map_values(
            |c: char|
                if c == ',' {
                    '.'
                } else {
                    c
                },
        ));
    }
    assert(v@.take(v@.len() as int) =~= v@);
    crate::text::string_of(&out)
}

/// Thousands separators removed from an English amount (`"1'124.61"` to
/// `"1124.61"`); the ASCII `'` and the typographic `’` both count.
pub fn normalize_amount_en(text: &str) -> (r: String)
    ensures
        r@ == normalize_en_spec(text@),
{
    let v = crate::text::chars_of(trim(text).as_str());
    let mut out: Vec<char> = Vec::new();
    let mut i: usize = 0;
    assert(v@.take(0) =~= Seq::<char>::empty());
    while i < v.len()
        invariant
            i <= v@.len(),
            v@ == trim_spec(text@),
            out@ == drop_apostrophes(v@.take(i as int)),
        decreases v.len() - i,
    {
        let c = v[i];
        assert(v@.take(i + 1).drop_last() =~= v@.take(i as int));
        if c != '\'' && c != '\u{2019}' {
            out.push(c);
        }
        i = i + 1;
    }
    assert(v@.take(v@.len() as int) =~= v@);
    crate::text::string_of(&out)
}

/// The five standard entities decoded, `&amp;` last so a literal `&lt;`
/// never becomes a second-stage entity.
pub open spec fn decode_spec(text: Seq<char>) -> Seq<char> {
    replace_spec(
        replace_spec(
            replace_spec(
                replace_spec(replace_spec(text, "&apos;"@, "'"@), "&quot;"@, "\""@),
                "&lt;"@,
                "<"@,
            ),
            "&gt;"@,
            ">"@,
        ),
        "&amp;"@,
        "&"@,
    )
}

/// Decode the handful of standard XML/HTML entities the statement generator
/// sometimes leaves un-decoded in descriptions (e.g. `"McDonald&apos;s"`).
pub fn decode_entities(text: &str) -> (r: String)
    ensures
        r@ == decode_spec(text@),
{
    proof {
        reveal_strlit("&apos;");
        reveal_strlit("&quot;");
        reveal_strlit("&lt;");
        reveal_strlit("&gt;");
        reveal_strlit("&amp;");
    }
    let a = replace_all(text, "&apos;", "'");
    let b = replace_all(a.as_str(), "&quot;", "\"");
    let c = replace_all(b.as_str(), "&lt;", "<");
    let d = replace_all(c.as_str(), "&gt;", ">");
    replace_all(d.as_str(), "&amp;", "&")
}

/// The text between the first pair of `"` quotes in `description`, or the
/// trimmed full text when there is no such pair.
pub open spec fn candidate_spec(description: Seq<char>) -> Seq<char> {
    match find_char(description, '"', description.len()) {
        None => trim_spec(description),
        Some(start) => {
            let rest = description.skip(start + 1);
            match find_char(rest, '"', rest.len()) {
                Some(end) => rest.take(end),
                None => trim_spec(description),
            }
        },
    }
}

/// The first index of `c` in `v` at or after `from`, relative to `from`.
fn find_from(v: &Vec<char>, from: usize, c: char) -> (r: Option<usize>)
    requires
        from <= v@.len(),
    ensures
        match find_char(v@.skip(from as int), c, (v@.len() - from) as nat) {
            None => r is None,
            Some(i) => r == Some(i as usize),
        },
{
    let ghost s = v@.skip(from as int);
    let mut i: usize = from;
    while i < v.len()
        invariant
            from <= i <= v@.len(),
            s == v@.skip(from as int),
            find_char(s, c, (i - from) as nat) is None,
        decreases v.len() - i,
    {
        if v[i] == c {
            assert(s[i - from] == c);
            proof {
                crate::text::lemma_find_char_stays(s, c, (i + 1 - from) as nat, s.len());
            }
            return Some(i - from);
        }
        i = i + 1;
    }
    None
}

/// The merchant candidate of a description: the first quoted substring, or
/// the trimmed full text if it has none.
pub fn merchant_candidate(description: &str) -> (r: String)
    ensures
        r@ == candidate_spec(description@),
{
    let v = crate::text::chars_of(description);
    assert(v@.skip(0) =~= v@);
    if let Some(start) = find_from(&v, 0, '"') {
        proof {
            lemma_find_char_bound(v@, '"', v@.len());
        }
        assert(start < v.len());
        let from = start + 1;
        if let Some(end_offset) = find_from(&v, from, '"') {
            proof {
                lemma_find_char_bound(v@.skip(from as int), '"', (v@.len() - from) as nat);
            }
            assert(end_offset < v.len() - from);
            let end = from + end_offset;
            let r = crate::text::string_of_range(&v, from, end);
            assert(r@ =~= v@.skip(from as int).take(end_offset as int));
            return r;
        }
    }
    trim(description)
}

proof fn lemma_find_char_bound(s: Seq<char>, c: char, n: nat)
    requires
        n <= s.len(),
    ensures
        find_char(s, c, n) matches Some(i) ==> 0 <= i < n && s[i] == c,
    decreases n,
{
    if n > 0 {
        lemma_find_char_bound(s, c, (n - 1) as nat);
    }
}

/// A row's cells by canonical column key; a column with no text in this row
/// is absent.
#[derive(Debug, Clone)]
pub struct RowCells {
    pub date: Option<String>,
    pub value_date: Option<String>,
    pub description: Option<String>,
    pub debit: Option<String>,
    pub credit: Option<String>,
}

/// One row extracted from a statement, before merchant suggestion.
#[derive(Debug, Clone)]
pub struct DeblockRow {
    /// 1-based, sequential across the whole document.
    pub row_number: usize,
    pub booking_date: Date,
    pub value_date: Date,
    /// Signed: negative for a debit cell, positive for a credit cell.
    pub amount: Decimal,
    /// The raw description cell, entities decoded.
    pub description: String,
    /// The quoted substring within `description`, or the full text.
    pub merchant_candidate: String,
}

/// The rows a statement yielded, and the rows it could not.
#[derive(Debug, Clone)]
pub struct DeblockParse {
    pub rows: Vec<DeblockRow>,
    pub rejected: Vec<RowError>,
}

/// A row as the contracts see it.
pub struct RowView {
    pub row_number: usize,
    pub booking_date: Date,
    pub value_date: Date,
    pub amount: Decimal,
    pub description: Seq<char>,
    pub merchant_candidate: Seq<char>,
}

/// The view of an extracted row.
pub open spec fn row_view(r: DeblockRow) -> RowView {
    RowView {
        row_number: r.row_number,
        booking_date: r.booking_date,
        value_date: r.value_date,
        amount: r.amount,
        description: r.description@,
        merchant_candidate: r.merchant_candidate@,
    }
}

/// A date cell read in `locale`; an English one needs the statement year.
pub open spec fn date_in_spec(locale: Locale, year: Option<i32>, text: Seq<char>) -> Option<Date> {
    match locale {
        Locale::French => french_date_spec(text),
        Locale::English => match year {
            None => None,
            Some(y) => english_date_spec(text, y),
        },
    }
}

/// An amount cell normalized for `locale`.
pub open spec fn normalize_in_spec(locale: Locale, text: Seq<char>) -> Seq<char> {
    match locale {
        Locale::French => normalize_fr_spec(text),
        Locale::English => normalize_en_spec(text),
    }
}

/// What [`parse_row`] gives for a row: the booking date, the value date,
/// the description, then the signed amount from whichever one of the debit
/// and credit columns holds it; the first failure reported.
pub open spec fn parse_row_spec(
    row_number: usize,
    date: Option<Seq<char>>,
    value_date: Option<Seq<char>>,
    description: Option<Seq<char>>,
    debit: Option<Seq<char>>,
    credit: Option<Seq<char>>,
    locale: Locale,
    year: Option<i32>,
) -> Result<RowView, Seq<char>> {
    match date {
        None => Err("missing date"@),
        Some(dt) => match date_in_spec(locale, year, dt) {
            None => Err(
                match locale {
                    Locale::French => "unrecognized date format"@,
                    Locale::English => "unrecognized date format (or missing statement year)"@,
                },
            ),
            Some(booking_date) => match value_date {
                None => Err("missing value date"@),
                Some(vt) => match date_in_spec(locale, year, vt) {
                    None => Err(
                        match locale {
                            Locale::French => "unrecognized value-date format"@,
                            Locale::English =>
                                "unrecognized value-date format (or missing statement year)"@,
                        },
                    ),
                    Some(value_date) => {
                        let desc = decode_spec(
                            match description {
                                Some(d) => d,
                                None => Seq::empty(),
                            },
                        );
                        match (debit, credit) {
                            (Some(_), Some(_)) => Err(
                                "amount appears in both the debit and credit columns"@,
                            ),
                            (None, None) => Err("no amount found in the debit or credit column"@),
                            _ => {
                                let signed = match debit {
                                    Some(t) => seq!['-'] + normalize_in_spec(locale, t),
                                    None => normalize_in_spec(locale, credit->0),
                                };
                                match amount_spec(signed) {
                                    Err(e) => Err(transaction_error_text(e)),
                                    Ok(amount) => Ok(
                                        RowView {
                                            row_number,
                                            booking_date,
                                            value_date,
                                            amount,
                                            description: desc,
                                            merchant_candidate: candidate_spec(desc),
                                        },
                                    ),
                                }
                            },
                        }
                    },
                },
            },
        },
    }
}

/// What [`parse_row`] gives for `cells`.
pub open spec fn row_cells_spec(
    row_number: usize,
    cells: RowCells,
    locale: Locale,
    year: Option<i32>,
) -> Result<RowView, Seq<char>> {
    parse_row_spec(
        row_number,
        opt_string_view(cells.date),
        opt_string_view(cells.value_date),
        opt_string_view(cells.description),
        opt_string_view(cells.debit),
        opt_string_view(cells.credit),
        locale,
        year,
    )
}

/// The text of a message as an owned `String`.
fn owned(s: &str) -> (r: String)
    ensures
        r@ == s@,
{
    let mut r = String::new();
    append(&mut r, s);
    assert(r@ =~= s@);
    r
}

/// A date cell read in `locale`.
fn date_in(locale: Locale, year: Option<i32>, text: &str) -> (r: Option<Date>)
    ensures
        r == date_in_spec(locale, year, text@),
        r matches Some(d) ==> d.valid(),
{
    match locale {
        Locale::French => parse_french_date(text),
        Locale::English => match year {
            None => None,
            Some(y) => parse_english_date(text, y),
        },
    }
}

/// An amount cell normalized for `locale`.
fn normalize_in(locale: Locale, text: &str) -> (r: String)
    ensures
        r@ == normalize_in_spec(locale, text@),
{
    match locale {
        Locale::French => normalize_amount_fr(text),
        Locale::English => normalize_amount_en(text),
    }
}

/// Parse one row's cells into a [`DeblockRow`], or the reason it cannot be
/// imported. The amount's sign comes only from its column: negative in the
/// debit column, positive in the credit column.
pub fn parse_row(row_number: usize, cells: &RowCells, locale: Locale, statement_year: Option<i32>) -> (r:
    Result<DeblockRow, String>)
    ensures
        match r {
            Ok(row) => row_cells_spec(row_number, *cells, locale, statement_year) == Ok::<
                RowView,
                Seq<char>,
            >(row_view(row)),
            Err(m) => row_cells_spec(row_number, *cells, locale, statement_year) == Err::<
                RowView,
                Seq<char>,
            >(m@),
        },
{
    let booking_date = match &cells.date {
        None => return Err(owned("missing date")),
        Some(t) => match date_in(locale, statement_year, t.as_str()) {
            Some(d) => d,
            None => {
                return Err(
                    match locale {
                        Locale::French => owned("unrecognized date format"),
                        Locale::English => owned(
                            "unrecognized date format (or missing statement year)",
                        ),
                    },
                )
            },
        },
    };
    let value_date = match &cells.value_date {
        None => return Err(owned("missing value date")),
        Some(t) => match date_in(locale, statement_year, t.as_str()) {
            Some(d) => d,
            None => {
                return Err(
                    match locale {
                        Locale::French => owned("unrecognized value-date format"),
                        Locale::English => owned(
                            "unrecognized value-date format (or missing statement year)",
                        ),
                    },
                )
            },
        },
    };
    proof {
        reveal_strlit("");
        assert(""@ =~= Seq::<char>::empty());
    }
    let description = match &cells.description {
        Some(d) => decode_entities(d.as_str()),
        None => decode_entities(""),
    };
    let signed = match (&cells.debit, &cells.credit) {
        (Some(_), Some(_)) => {
            return Err(owned("amount appears in both the debit and credit columns"))
        },
        (None, None) => return Err(owned("no amount found in the debit or credit column")),
        (Some(text), None) => {
            let mut s = owned("-");
            proof {
                reveal_strlit("-");
            }
            let n = normalize_in(locale, text.as_str());
            append(&mut s, n.as_str());
            assert(s@ =~= seq!['-'] + n@);
            s
        },
        (None, Some(text)) => normalize_in(locale, text.as_str()),
    };
    let amount = match validate_amount(signed.as_str()) {
        Ok(a) => a,
        Err(e) => return Err(owned(e.message())),
    };
    let candidate = merchant_candidate(description.as_str());
    Ok(
        DeblockRow {
            row_number,
            booking_date,
            value_date,
            amount,
            merchant_candidate: candidate,
            description,
        },
    )
}

/// The position of the first word in `row` whose text is `label`, among the
/// first `n`.
pub open spec fn first_word(row: Seq<Seq<char>>, label: Seq<char>, n: nat) -> Option<int>
    decreases n,
{
    if n == 0 {
        None
    } else {
        match first_word(row, label, (n - 1) as nat) {
            Some(i) => Some(i),
            None => if row[n - 1] == label {
                Some(n - 1)
            } else {
                None
            },
        }
    }
}

/// The first `k` labels matched in `row`, each as `(canonical key, position
/// of its word)`, or `None` when one of them has no word.
pub open spec fn header_match(
    row: Seq<Seq<char>>,
    labels: Seq<(Seq<char>, Seq<char>)>,
    k: nat,
) -> Option<Seq<(Seq<char>, int)>>
    decreases k,
{
    if k == 0 {
        Some(Seq::empty())
    } else {
        match header_match(row, labels, (k - 1) as nat) {
            None => None,
            Some(acc) => match first_word(row, labels[k - 1].0, row.len()) {
                None => None,
                Some(i) => Some(acc.push((labels[k - 1].1, i))),
            },
        }
    }
}

/// The first of the first `n` rows that holds every label, with its
/// matched columns.
pub open spec fn find_header_spec(
    rows: Seq<Seq<Seq<char>>>,
    labels: Seq<(Seq<char>, Seq<char>)>,
    n: nat,
) -> Option<(int, Seq<(Seq<char>, int)>)>
    decreases n,
{
    if n == 0 {
        None
    } else {
        match find_header_spec(rows, labels, (n - 1) as nat) {
            Some(h) => Some(h),
            None => match header_match(rows[n - 1], labels, labels.len()) {
                Some(cols) => Some((n - 1, cols)),
                None => None,
            },
        }
    }
}

/// The texts of each row of words.
pub open spec fn rows_texts(rows: Seq<Vec<String>>) -> Seq<Seq<Seq<char>>> {
    rows.map_values(|r: Vec<String>| string_texts(r@))
}

/// The view of a matched header's columns.
pub open spec fn columns_view(cols: Seq<(&'static str, usize)>) -> Seq<(Seq<char>, int)> {
    cols.map_values(|c: (&'static str, usize)| (c.0@, c.1 as int))
}

/// The position of the first word of `row` whose text is `label`.
fn first_word_at(row: &Vec<String>, label: &str) -> (r: Option<usize>)
    ensures
        r is None ==> first_word(string_texts(row@), label@, row@.len()) is None,
        r matches Some(i) ==> first_word(string_texts(row@), label@, row@.len()) == Some(i as int),
{
    let ghost texts = string_texts(row@);
    let mut i: usize = 0;
    while i < row.len()
        invariant
            i <= row@.len(),
            texts == string_texts(row@),
            first_word(texts, label@, i as nat) is None,
        decreases row.len() - i,
    {
        assert(texts[i as int] == row@[i as int]@);
        if str_eq(row[i].as_str(), label) {
            proof {
                lemma_first_word_stays(texts, label@, (i + 1) as nat, texts.len());
            }
            return Some(i);
        }
        i = i + 1;
    }
    None
}

proof fn lemma_first_word_stays(row: Seq<Seq<char>>, label: Seq<char>, i: nat, n: nat)
    requires
        i <= n,
        first_word(row, label, i) is Some,
    ensures
        first_word(row, label, n) == first_word(row, label, i),
    decreases n - i,
{
    if i < n {
        lemma_first_word_stays(row, label, i, (n - 1) as nat);
    }
}

proof fn lemma_header_stays(
    rows: Seq<Seq<Seq<char>>>,
    labels: Seq<(Seq<char>, Seq<char>)>,
    i: nat,
    n: nat,
)
    requires
        i <= n,
        find_header_spec(rows, labels, i) is Some,
    ensures
        find_header_spec(rows, labels, n) == find_header_spec(rows, labels, i),
    decreases n - i,
{
    if i < n {
        lemma_header_stays(rows, labels, i, (n - 1) as nat);
    }
}

/// Find the first row holding a word that exactly matches every printed
/// label, in order; return its index and, per label, its canonical key and
/// the position of the matching word in that row. `None` when no row holds
/// them all: the file is not recognized as this bank's statement.
pub fn find_header(rows: &Vec<Vec<String>>, labels: &Vec<(&'static str, &'static str)>) -> (r:
    Option<(usize, Vec<(&'static str, usize)>)>)
    ensures
        match find_header_spec(rows_texts(rows@), label_texts(labels@), rows@.len()) {
            None => r is None,
            Some(h) => r matches Some(x) && x.0 as int == h.0 && columns_view(x.1@) == h.1,
        },
{
    let ghost rt = rows_texts(rows@);
    let ghost lt = label_texts(labels@);
    let mut index: usize = 0;
    while index < rows.len()
        invariant
            index <= rows@.len(),
            rt == rows_texts(rows@),
            lt == label_texts(labels@),
            find_header_spec(rt, lt, index as nat) is None,
        decreases rows.len() - index,
    {
        let row = &rows[index];
        assert(rt[index as int] == string_texts(row@));
        let mut columns: Vec<(&'static str, usize)> = Vec::new();
        let mut k: usize = 0;
        let mut complete = true;
        assert(columns_view(columns@) =~= Seq::empty());
        while complete && k < labels.len()
            invariant
                k <= labels@.len(),
                index < rows@.len(),
                rt == rows_texts(rows@),
                lt == label_texts(labels@),
                rt[index as int] == string_texts(row@),
                complete ==> header_match(rt[index as int], lt, k as nat) == Some(
                    columns_view(columns@),
                ),
                !complete ==> header_match(rt[index as int], lt, lt.len()) is None,
            decreases labels.len() - k + (if complete {
                1int
            } else {
                0int
            }),
        {
            let (label, name) = labels[k];
            assert(lt[k as int] == (label@, name@));
            match first_word_at(row, label) {
                None => {
                    proof {
                        lemma_match_none_sticks(rt[index as int], lt, (k + 1) as nat, lt.len());
                    }
                    complete = false;
                },
                Some(i) => {
                    let ghost before = columns_view(columns@);
                    proof {
                        assert(string_texts(row@).len() == row@.len());
                        assert(first_word(rt[index as int], lt[k as int].0, rt[index as int].len())
                            == Some(i as int));
                        assert(header_match(rt[index as int], lt, (k + 1) as nat) == Some(
                            before.push((name@, i as int)),
                        ));
                    }
                    columns.push((name, i));
                    assert(columns_view(columns@) =~= before.push((name@, i as int)));
                    k = k + 1;
                },
            }
        }
        if complete {
            proof {
                lemma_header_stays(rt, lt, (index + 1) as nat, rt.len());
            }
            return Some((index, columns));
        }
        index = index + 1;
    }
    None
}

proof fn lemma_match_none_sticks(
    row: Seq<Seq<char>>,
    labels: Seq<(Seq<char>, Seq<char>)>,
    i: nat,
    n: nat,
)
    requires
        i <= n,
        header_match(row, labels, i) is None,
    ensures
        header_match(row, labels, n) is None,
    decreases n - i,
{
    if i < n {
        lemma_match_none_sticks(row, labels, i + 1, n);
    }
}

/// The header of a statement: the French label set tried first, then the
/// English one.
pub open spec fn locate_header_spec(rows: Seq<Seq<Seq<char>>>) -> Option<
    (int, Seq<(Seq<char>, int)>, Locale),
> {
    match find_header_spec(rows, header_labels_spec(Locale::French), rows.len()) {
        Some(h) => Some((h.0, h.1, Locale::French)),
        None => match find_header_spec(rows, header_labels_spec(Locale::English), rows.len()) {
            Some(h) => Some((h.0, h.1, Locale::English)),
            None => None,
        },
    }
}

/// Locate the header row, trying the French label set first, then the
/// English one: its index, its columns, and which locale matched.
pub fn locate_header(rows: &Vec<Vec<String>>) -> (r: Option<
    (usize, Vec<(&'static str, usize)>, Locale),
>)
    ensures
        match locate_header_spec(rows_texts(rows@)) {
            None => r is None,
            Some(h) => r matches Some(x) && x.0 as int == h.0 && columns_view(x.1@) == h.1 && x.2
                == h.2,
        },
{
    let fr = header_labels(Locale::French);
    if let Some((index, columns)) = find_header(rows, &fr) {
        return Some((index, columns, Locale::French));
    }
    let en = header_labels(Locale::English);
    match find_header(rows, &en) {
        Some((index, columns)) => Some((index, columns, Locale::English)),
        None => None,
    }
}

/// The rows and rejections of the first `n` row cells, numbered from
/// `start`.
pub open spec fn parse_prefix(
    cells: Seq<RowCells>,
    start: int,
    locale: Locale,
    year: Option<i32>,
    n: nat,
) -> (Seq<RowView>, Seq<(usize, Seq<char>)>)
    decreases n,
{
    if n == 0 {
        (Seq::empty(), Seq::empty())
    } else {
        let acc = parse_prefix(cells, start, locale, year, (n - 1) as nat);
        let number = (start + n - 1) as usize;
        match row_cells_spec(number, cells[n - 1], locale, year) {
            Ok(row) => (acc.0.push(row), acc.1),
            Err(m) => (acc.0, acc.1.push((number, m))),
        }
    }
}

/// The view of a rejection.
pub open spec fn rejection_view(e: RowError) -> (usize, Seq<char>) {
    (e.row_number, e.reason@)
}

/// Parse the rows beneath an already located header, numbering them
/// sequentially from `*next_row_number` (advanced past every row).
pub fn parse_cell_rows(
    cells: &Vec<RowCells>,
    locale: Locale,
    statement_year: Option<i32>,
    next_row_number: &mut usize,
) -> (r: DeblockParse)
    requires
        *old(next_row_number) + cells@.len() <= usize::MAX,
    ensures
        *final(next_row_number) == *old(next_row_number) + cells@.len(),
        ({
            let p = parse_prefix(
                cells@,
                *old(next_row_number) as int,
                locale,
                statement_year,
                cells@.len(),
            );
            r.rows@.map_values(|x: DeblockRow| row_view(x)) == p.0 && r.rejected@.map_values(
                |e: RowError| rejection_view(e),
            ) == p.1
        }),
{
    let ghost start = *next_row_number as int;
    let mut result = DeblockParse { rows: Vec::new(), rejected: Vec::new() };
    let mut i: usize = 0;
    assert(result.rows@.map_values(|x: DeblockRow| row_view(x)) =~= Seq::empty());
    assert(result.rejected@.map_values(|e: RowError| rejection_view(e)) =~= Seq::empty());
    while i < cells.len()
        invariant
            i <= cells@.len(),
            start + cells@.len() <= usize::MAX,
            *next_row_number == start + i,
            ({
                let p = parse_prefix(cells@, start, locale, statement_year, i as nat);
                result.rows@.map_values(|x: DeblockRow| row_view(x)) == p.0
                    && result.rejected@.map_values(|e: RowError| rejection_view(e)) == p.1
            }),
        decreases cells.len() - i,
    {
        let row_number = *next_row_number;
        *next_row_number = *next_row_number + 1;
        let ghost rows_before = result.rows@.map_values(|x: DeblockRow| row_view(x));
        let ghost rejected_before = result.rejected@.map_values(|e: RowError| rejection_view(e));
        match parse_row(row_number, &cells[i], locale, statement_year) {
            Ok(parsed) => {
                result.rows.push(parsed);
                assert(result.rows@.map_values(|x: DeblockRow| row_view(x)) =~= rows_before.push(
                    row_view(parsed),
                ));
                assert(result.rejected@.map_values(|e: RowError| rejection_view(e))
                    =~= rejected_before);
            },
            Err(reason) => {
                let e = RowError { row_number, reason };
                result.rejected.push(e);
                assert(result.rejected@.map_values(|e: RowError| rejection_view(e))
                    =~= rejected_before.push(rejection_view(e)));
                assert(result.rows@.map_values(|x: DeblockRow| row_view(x)) =~= rows_before);
            },
        }
        i = i + 1;
    }
    result
}

/// A case-insensitive merchant lookup for suggestions: each entry is the
/// lowercased name, the merchant's id and its display name; no key occurs
/// twice.
#[derive(Debug, Clone)]
pub struct SuggestionIndex {
    pub entries: Vec<(String, u128, String)>,
}

/// The view of a suggestion index.
pub open spec fn suggestion_texts(v: Seq<(String, u128, String)>) -> Seq<
    (Seq<char>, u128, Seq<char>),
> {
    v.map_values(|e: (String, u128, String)| (e.0@, e.1, e.2@))
}

/// Whether `key` is among the keys of `acc`.
pub open spec fn has_suggestion_key(acc: Seq<(Seq<char>, u128, Seq<char>)>, key: Seq<char>) -> bool {
    exists|j: int| 0 <= j < acc.len() && acc[j].0 == key
}

/// The suggestion index of the first `n` `(name, id)` merchants, the first
/// winning on a case-only collision.
pub open spec fn suggestion_prefix(merchants: Seq<(Seq<char>, u128)>, n: nat) -> Seq<
    (Seq<char>, u128, Seq<char>),
>
    decreases n,
{
    if n == 0 {
        Seq::empty()
    } else {
        let acc = suggestion_prefix(merchants, (n - 1) as nat);
        let key = lowercase(merchants[n - 1].0);
        if has_suggestion_key(acc, key) {
            acc
        } else {
            acc.push((key, merchants[n - 1].1, merchants[n - 1].0))
        }
    }
}

/// The `(name, id)` pairs of a merchant list.
pub open spec fn merchant_texts(v: Seq<(String, u128)>) -> Seq<(Seq<char>, u128)> {
    v.map_values(|e: (String, u128)| (e.0@, e.1))
}

/// Build the merchant suggestion index from the user's active merchants.
pub fn suggestion_index(merchants: &Vec<(String, u128)>) -> (r: SuggestionIndex)
    ensures
        suggestion_texts(r.entries@) == suggestion_prefix(merchant_texts(merchants@), merchants@.len()),
{
    let ghost ms = merchant_texts(merchants@);
    let mut entries: Vec<(String, u128, String)> = Vec::new();
    let mut i: usize = 0;
    assert(suggestion_texts(entries@) =~= Seq::empty());
    while i < merchants.len()
        invariant
            i <= merchants@.len(),
            ms == merchant_texts(merchants@),
            suggestion_texts(entries@) == suggestion_prefix(ms, i as nat),
        decreases merchants.len() - i,
    {
        let key = to_lowercase(merchants[i].0.as_str());
        let ghost acc = suggestion_prefix(ms, i as nat);
        assert(ms[i as int] == (merchants@[i as int].0@, merchants@[i as int].1));
        let mut j: usize = 0;
        let mut found = false;
        while j < entries.len()
            invariant
                j <= entries@.len(),
                acc == suggestion_texts(entries@),
                found == (exists|k: int| 0 <= k < j && acc[k].0 == key@),
            decreases entries.len() - j,
        {
            assert(acc[j as int] == (entries@[j as int].0@, entries@[j as int].1, entries@[j as int].2@));
            if str_eq(entries[j].0.as_str(), key.as_str()) {
                found = true;
            }
            j = j + 1;
        }
        assert(found == has_suggestion_key(acc, key@));
        if !found {
            let ghost before = suggestion_texts(entries@);
            let e = (key, merchants[i].1, merchants[i].0.clone());
            entries.push(e);
            assert(suggestion_texts(entries@) =~= before.push((e.0@, e.1, e.2@)));
        }
        i = i + 1;
    }
    SuggestionIndex { entries }
}

/// The first entry among the first `n` whose key is `key`.
pub open spec fn lookup_suggestion(
    entries: Seq<(Seq<char>, u128, Seq<char>)>,
    key: Seq<char>,
    n: nat,
) -> Option<(u128, Seq<char>)>
    decreases n,
{
    if n == 0 {
        None
    } else {
        match lookup_suggestion(entries, key, (n - 1) as nat) {
            Some(x) => Some(x),
            None => if entries[n - 1].0 == key {
                Some((entries[n - 1].1, entries[n - 1].2))
            } else {
                None
            },
        }
    }
}

proof fn lemma_suggestion_stays(
    entries: Seq<(Seq<char>, u128, Seq<char>)>,
    key: Seq<char>,
    i: nat,
    n: nat,
)
    requires
        i <= n,
        lookup_suggestion(entries, key, i) is Some,
    ensures
        lookup_suggestion(entries, key, n) == lookup_suggestion(entries, key, i),
    decreases n - i,
{
    if i < n {
        lemma_suggestion_stays(entries, key, i, (n - 1) as nat);
    }
}

impl SuggestionIndex {
    /// The merchant stored under the lowercased `key`.
    pub fn get(&self, key: &str) -> (r: Option<(u128, String)>)
        ensures
            match lookup_suggestion(suggestion_texts(self.entries@), key@, self.entries@.len()) {
                None => r is None,
                Some(x) => r matches Some(y) && y.0 == x.0 && y.1@ == x.1,
            },
    {
        let ghost es = suggestion_texts(self.entries@);
        let mut i: usize = 0;
        while i < self.entries.len()
            invariant
                i <= self.entries@.len(),
                es == suggestion_texts(self.entries@),
                lookup_suggestion(es, key@, i as nat) is None,
            decreases self.entries.len() - i,
        {
            assert(es[i as int] == (
                self.entries@[i as int].0@,
                self.entries@[i as int].1,
                self.entries@[i as int].2@,
            ));
            if str_eq(self.entries[i].0.as_str(), key) {
                proof {
                    lemma_suggestion_stays(es, key@, (i + 1) as nat, es.len());
                }
                return Some((self.entries[i].1, self.entries[i].2.clone()));
            }
            i = i + 1;
        }
        None
    }
}

/// A row ready for review, with the merchant suggestion resolved against
/// the user's active merchants (never authoritative).
#[derive(Debug, Clone)]
pub struct ResolvedRow {
    pub row_number: usize,
    pub booking_date: Date,
    pub value_date: Date,
    pub amount: Decimal,
    pub description: String,
    pub suggested_merchant_id: Option<u128>,
    pub suggested_merchant_name: Option<String>,
}

/// The outcome of reading a statement: rows ready for review, plus every
/// row that could not be read.
#[derive(Debug, Clone)]
pub struct StatementExtraction {
    pub rows: Vec<ResolvedRow>,
    pub rejected: Vec<RowError>,
}

/// Whether `resolved` is `row` with the suggestion its candidate looks up.
pub open spec fn resolved_matches(
    resolved: ResolvedRow,
    row: DeblockRow,
    entries: Seq<(Seq<char>, u128, Seq<char>)>,
) -> bool {
    let s = lookup_suggestion(entries, lowercase(row.merchant_candidate@), entries.len());
    &&& resolved.row_number == row.row_number
    &&& resolved.booking_date == row.booking_date
    &&& resolved.value_date == row.value_date
    &&& resolved.amount == row.amount
    &&& resolved.description@ == row.description@
    &&& match s {
        None => resolved.suggested_merchant_id is None && resolved.suggested_merchant_name is None,
        Some(x) => resolved.suggested_merchant_id == Some(x.0) && opt_string_view(
            resolved.suggested_merchant_name,
        ) == Some(x.1),
    }
}

/// Attach to every parsed row the merchant whose name matches its candidate
/// case-insensitively, if any; rejections pass through unchanged.
pub fn resolve_suggestions(parsed: DeblockParse, index: &SuggestionIndex) -> (r: StatementExtraction)
    ensures
        r.rows@.len() == parsed.rows@.len(),
        forall|i: int|
            0 <= i < r.rows@.len() ==> resolved_matches(
                #[trigger] r.rows@[i],
                parsed.rows@[i],
                suggestion_texts(index.entries@),
            ),
        r.rejected@ == parsed.rejected@,
{
    let mut rows: Vec<ResolvedRow> = Vec::new();
    let mut i: usize = 0;
    while i < parsed.rows.len()
        invariant
            i <= parsed.rows@.len(),
            rows@.len() == i,
            forall|k: int|
                0 <= k < i ==> resolved_matches(
                    #[trigger] rows@[k],
                    parsed.rows@[k],
                    suggestion_texts(index.entries@),
                ),
        decreases parsed.rows.len() - i,
    {
        let row = &parsed.rows[i];
        let key = to_lowercase(row.merchant_candidate.as_str());
        let suggestion = index.get(key.as_str());
        let (id, name) = match suggestion {
            Some((id, name)) => (Some(id), Some(name)),
            None => (None, None),
        };
        rows.push(
            ResolvedRow {
                row_number: row.row_number,
                booking_date: row.booking_date,
                value_date: row.value_date,
                amount: row.amount.dup(),
                description: row.description.clone(),
                suggested_merchant_id: id,
                suggested_merchant_name: name,
            },
        );
        i = i + 1;
    }
    StatementExtraction { rows, rejected: parsed.rejected }
}

/// What the statement-year field gives: absent when blank or missing,
/// otherwise a number.
pub open spec fn statement_year_spec(input: Option<Seq<char>>) -> Result<
    Option<i32>,
    StatementImportError,
> {
    match optional_nonblank_spec(input) {
        None => Ok(None),
        Some(t) => match parse_i32_spec(t) {
            Some(y) => Ok(Some(y)),
            None => Err(StatementImportError::InvalidInput("statement year must be a number")),
        },
    }
}

/// Parse the optional statement year (needed only for an English
/// statement): blank means not supplied.
pub fn parse_statement_year(input: Option<&str>) -> (r: Result<Option<i32>, StatementImportError>)
    ensures
        r == statement_year_spec(opt_view(input)),
{
    match optional_trimmed(input) {
        None => Ok(None),
        Some(t) => match parse_i32(t.as_str()) {
            Some(y) => Ok(Some(y)),
            None => Err(StatementImportError::InvalidInput("statement year must be a number")),
        },
    }
}

/// One reviewed row as the browser sends it back (a blank id means none).
#[derive(Debug, Clone)]
pub struct ConfirmedRowInput {
    pub booking_date: String,
    pub value_date: Option<String>,
    pub amount: String,
    pub category_id: String,
    pub merchant_id: String,
}

/// What [`resolve_confirmed_row`] gives: every field re-validated, the
/// amount first, then the dates, then the ids; the first failure's message.
pub open spec fn confirmed_spec(row: ConfirmedRowInput, asset_id: u128) -> Result<
    TransactionWrite,
    Seq<char>,
> {
    match amount_spec(row.amount@) {
        Err(e) => Err(transaction_error_text(e)),
        Ok(amount) => match date_field_spec(row.booking_date@, "booking date is invalid") {
            Err(e) => Err(transaction_error_text(e)),
            Ok(booking_date) => match optional_date_spec(
                opt_string_view(row.value_date),
                "value date is invalid",
            ) {
                Err(e) => Err(transaction_error_text(e)),
                Ok(value_date) => match optional_id_spec(row.category_id@, "invalid category id") {
                    Err(e) => Err(transaction_error_text(e)),
                    Ok(category_id) => match optional_id_spec(
                        row.merchant_id@,
                        "invalid merchant id",
                    ) {
                        Err(e) => Err(transaction_error_text(e)),
                        Ok(merchant_id) => Ok(
                            TransactionWrite {
                                asset_id,
                                amount,
                                booking_date,
                                value_date,
                                category_id,
                                merchant_id,
                            },
                        ),
                    },
                },
            },
        },
    }
}

/// The id a reviewed-row field names: none when it is blank, otherwise the
/// UUID its trimmed text parses to.
pub open spec fn named_id(field: Seq<char>) -> Option<u128> {
    match crate::text::nonblank_spec(field) {
        None => None,
        Some(t) => crate::ids::uuid_parse(t),
    }
}

/// A reviewed row that is accepted is written on the given account with
/// exactly what the user chose: the amount it spells, the category and
/// merchant its fields name (none only for a blank field); a non-blank
/// category or merchant field that is not a UUID rejects the row.
pub proof fn lemma_confirmed_row_keeps_choices(row: ConfirmedRowInput, asset_id: u128)
    ensures
        confirmed_spec(row, asset_id) matches Ok(w) ==> {
            &&& w.asset_id == asset_id
            &&& amount_spec(row.amount@) == Ok::<Decimal, crate::transactions::TransactionError>(
                w.amount,
            )
            &&& date_field_spec(row.booking_date@, "booking date is invalid") == Ok::<
                crate::date::Date,
                crate::transactions::TransactionError,
            >(w.booking_date)
            &&& optional_date_spec(opt_string_view(row.value_date), "value date is invalid") == Ok::<
                Option<crate::date::Date>,
                crate::transactions::TransactionError,
            >(w.value_date)
            &&& w.category_id == named_id(row.category_id@)
            &&& w.merchant_id == named_id(row.merchant_id@)
            &&& (w.category_id is None <==> crate::text::nonblank_spec(row.category_id@) is None)
            &&& (w.merchant_id is None <==> crate::text::nonblank_spec(row.merchant_id@) is None)
        },
        crate::text::nonblank_spec(row.category_id@) is Some && named_id(row.category_id@) is None
            ==> confirmed_spec(row, asset_id) is Err,
        crate::text::nonblank_spec(row.merchant_id@) is Some && named_id(row.merchant_id@) is None
            ==> confirmed_spec(row, asset_id) is Err,
{
}

/// Re-validate one reviewed row into a [`TransactionWrite`] in the account's
/// own currency; nothing from the extraction step is trusted.
pub fn resolve_confirmed_row(row: &ConfirmedRowInput, asset_id: u128) -> (r: Result<
    TransactionWrite,
    String,
>)
    ensures
        match r {
            Ok(w) => confirmed_spec(*row, asset_id) == Ok::<TransactionWrite, Seq<char>>(w),
            Err(m) => confirmed_spec(*row, asset_id) == Err::<TransactionWrite, Seq<char>>(m@),
        },
{
    let amount = match validate_amount(row.amount.as_str()) {
        Ok(a) => a,
        Err(e) => return Err(owned(e.message())),
    };
    let booking_date = match validate_booking_date(row.booking_date.as_str()) {
        Ok(d) => d,
        Err(e) => return Err(owned(e.message())),
    };
    let value_date = match &row.value_date {
        None => validate_value_date(None),
        Some(v) => validate_value_date(Some(v.as_str())),
    };
    let value_date = match value_date {
        Ok(d) => d,
        Err(e) => return Err(owned(e.message())),
    };
    let category_id = match parse_optional_id(row.category_id.as_str(), "invalid category id") {
        Ok(c) => c,
        Err(e) => return Err(owned(e.message())),
    };
    let merchant_id = match parse_optional_id(row.merchant_id.as_str(), "invalid merchant id") {
        Ok(m) => m,
        Err(e) => return Err(owned(e.message())),
    };
    Ok(TransactionWrite { asset_id, amount, booking_date, value_date, category_id, merchant_id })
}

/// Plan every reviewed row, numbered from 1 in the order sent: the write to
/// insert on the account (in `asset_id`, its own currency), or why the row is
/// rejected.
pub fn plan_confirmed_rows(rows: &Vec<ConfirmedRowInput>, asset_id: u128) -> (r: Vec<PlannedRow>)
    ensures
        r@.len() == rows@.len(),
        forall|i: int|
            0 <= i < r@.len() ==> planned_view(#[trigger] r@[i]) == (
                (i + 1) as usize,
                confirmed_spec(rows@[i], asset_id),
            ),
{
    let mut out: Vec<PlannedRow> = Vec::new();
    let mut i: usize = 0;
    while i < rows.len()
        invariant
            i <= rows@.len(),
            out@.len() == i,
            forall|k: int|
                0 <= k < i ==> planned_view(#[trigger] out@[k]) == (
                    (k + 1) as usize,
                    confirmed_spec(rows@[k], asset_id),
                ),
        decreases rows.len() - i,
    {
        let outcome = resolve_confirmed_row(&rows[i], asset_id);
        let p = PlannedRow { row_number: i + 1, outcome };
        assert(planned_view(p) == ((i + 1) as usize, confirmed_spec(rows@[i as int], asset_id)));
        out.push(p);
        i = i + 1;
    }
    out
}

} // verus!
