//! A signed-in user's transactions: the input validation for the transaction
//! server functions, the keyset page cursor, the cross-field date rules, the
//! account-currency translation decision, and the domain error.
//!
//! Every value arriving from the browser is untrusted. [`validate_amount`],
//! [`validate_booking_date`], [`validate_value_date`] and
//! [`validate_date_range`] parse the raw fields; [`resolve_dates`] then
//! applies the cross-field rules (a cash account keeps one date; a value date
//! may not precede the booking date).

use vstd::prelude::*;

use crate::assets::conversion::{convert, converted_spec};
use crate::assets::rates::ResolvedRate;
use crate::date::{
    chrono_instant, chrono_parse_ymd, days_from_civil, iso_inverse, iso_spec, lemma_iso_round_trip, utc_date_of,
    Date,
};
use crate::decimal::{
    bd_parse, dec, digit_count, lemma_dec_m, fits_i64, from_parts, limbs_vec, magnitude, parts_canonical, signed,
    Decimal, Rounding,
};

use bigdecimal::num_bigint::{BigInt, Sign};
use bigdecimal::BigDecimal;
use crate::ids::{
    hyphenated_inverse, lemma_uuid_text_round_trip, uuid_from_str, uuid_parse, uuid_text,
    uuid_text_spec,
};
use crate::text::{
    find_char, nonblank_spec, opt_view, optional_nonblank_spec, optional_trimmed, split_once,
    split_once_spec, trim, trim_spec, trimmed_nonblank,
};

verus! {

/// Rounding applied when a foreign-currency transaction is translated into
/// its account's currency.
pub const TRANSACTION_FX_ROUNDING: Rounding = Rounding::HalfEven;

/// The largest number of fractional digits an amount may have
/// (`NUMERIC(38, 18)`).
pub const AMOUNT_SCALE: i64 = 18;

/// The largest number of integer digits an amount may have (`NUMERIC(38, 18)`
/// leaves 38 - 18 for the integer part).
pub const AMOUNT_INTEGER_DIGITS: i64 = 20;

/// How many transactions one page of the list holds.
pub const PAGE_SIZE: usize = 50;

/// Why a transaction operation failed.
#[derive(Debug, Clone, Copy, PartialEq, Eq)]
pub enum TransactionError {
    Unauthorized,
    NotFound,
    UnknownAsset,
    UnknownCategory,
    UnknownMerchant,
    InvalidInput(&'static str),
    Internal,
}

/// The user-facing message for a transaction error.
pub open spec fn transaction_error_text(e: TransactionError) -> Seq<char> {
    match e {
        TransactionError::Unauthorized => "you must be signed in to do this"@,
        TransactionError::NotFound => "transaction not found"@,
        TransactionError::UnknownAsset => "the selected currency does not exist"@,
        TransactionError::UnknownCategory => "the selected category does not exist"@,
        TransactionError::UnknownMerchant => "the selected merchant does not exist"@,
        TransactionError::InvalidInput(message) => message@,
        TransactionError::Internal => "something went wrong"@,
    }
}

impl TransactionError {
    /// The user-facing message for this error.
    pub fn message(&self) -> (r: &'static str)
        ensures
            r@ == transaction_error_text(*self),
    {
        match self {
            TransactionError::Unauthorized => "you must be signed in to do this",
            TransactionError::NotFound => "transaction not found",
            TransactionError::UnknownAsset => "the selected currency does not exist",
            TransactionError::UnknownCategory => "the selected category does not exist",
            TransactionError::UnknownMerchant => "the selected merchant does not exist",
            TransactionError::InvalidInput(message) => message,
            TransactionError::Internal => "something went wrong",
        }
    }
}

/// A keyset cursor: the `(booking_date, id)` of the last row already seen.
pub type Cursor = (Date, u128);

/// The columns needed to render a transaction row.
#[derive(Debug, Clone)]
pub struct TransactionRecord {
    pub id: u128,
    pub amount: Decimal,
    pub asset_id: u128,
    pub asset_code: String,
    pub account_id: u128,
    pub account_name: String,
    pub account_type: String,
    pub account_default_asset_id: u128,
    pub account_currency_code: String,
    /// The amount in the account's currency; `None` while a foreign-currency
    /// conversion is still pending.
    pub account_amount: Option<Decimal>,
    /// The rate used for that conversion.
    pub fx_rate: Option<Decimal>,
    pub booking_date: Date,
    pub value_date: Option<Date>,
    pub category_id: Option<u128>,
    pub category_name: Option<String>,
    pub merchant_id: Option<u128>,
    pub merchant_name: Option<String>,
    /// Set when this transaction is one leg of a transfer.
    pub transfer_id: Option<u128>,
    /// The name of the account on the other leg of that transfer.
    pub transfer_counterparty: Option<String>,
}

/// The filter for a list query. `from` / `to` bound `booking_date`
/// inclusively.
#[derive(Debug, Clone, Copy)]
pub struct TransactionFilter {
    pub account_id: Option<u128>,
    pub from: Option<Date>,
    pub to: Option<Date>,
    pub after: Option<Cursor>,
}

/// One page of list results, newest first, plus the cursor for the next page
/// (present only when more rows remain).
#[derive(Debug, Clone)]
pub struct TransactionListPage {
    pub records: Vec<TransactionRecord>,
    pub next: Option<Cursor>,
}

/// Cut the rows a list query returned (it asks for one more than a page) to
/// one page: when more than [`PAGE_SIZE`] came back, keep the first
/// [`PAGE_SIZE`] and hand out the last kept row's `(booking_date, id)` as the
/// next cursor.
pub fn page_of(records: Vec<TransactionRecord>) -> (r: TransactionListPage)
    ensures
        records@.len() > PAGE_SIZE ==> r.records@ == records@.take(PAGE_SIZE as int) && r.next
            == Some((records@[PAGE_SIZE - 1].booking_date, records@[PAGE_SIZE - 1].id)),
        records@.len() <= PAGE_SIZE ==> r.records@ == records@ && r.next is None,
{
    let mut records = records;
    if records.len() > PAGE_SIZE {
        records.truncate(PAGE_SIZE);
        let last = &records[PAGE_SIZE - 1];
        let next = Some((last.booking_date, last.id));
        TransactionListPage { records, next }
    } else {
        TransactionListPage { records, next: None }
    }
}

/// The text of a cursor: `"YYYY-MM-DD_<uuid>"`.
pub open spec fn cursor_text_spec(c: Cursor) -> Seq<char> {
    iso_spec(c.0) + seq!['_'] + uuid_text_spec(c.1)
}

/// Encode a keyset cursor as an opaque `"YYYY-MM-DD_<uuid>"` string for the
/// browser to hand back verbatim.
pub fn encode_cursor(cursor: Cursor) -> (r: String)
    requires
        cursor.0.valid(),
    ensures
        r@ == cursor_text_spec(cursor),
{
    let mut v = crate::text::chars_of(cursor.0.iso_text().as_str());
    v.push('_');
    let id = crate::text::chars_of(uuid_text(cursor.1).as_str());
    let ghost head = v@;
    let mut i: usize = 0;
    while i < id.len()
        invariant
            i <= id.len(),
            v@ == head + id@.take(i as int),
        decreases id.len() - i,
    {
        v.push(id[i]);
        i = i + 1;
        assert(v@ =~= head + id@.take(i as int));
    }
    assert(id@.take(id.len() as int) =~= id@);
    crate::text::string_of(&v)
}

/// The message every malformed cursor is rejected with.
pub open spec fn invalid_cursor() -> TransactionError {
    TransactionError::InvalidInput("invalid page cursor")
}

/// What [`parse_cursor`] gives for `s`: split at the first `_`, the left
/// part read as `chrono` reads `%Y-%m-%d`, the right part as a UUID.
pub open spec fn cursor_spec(s: Seq<char>) -> Result<Cursor, TransactionError> {
    match split_once_spec(s, '_') {
        None => Err(invalid_cursor()),
        Some(p) => match chrono_parse_ymd(p.0) {
            None => Err(invalid_cursor()),
            Some(t) => match uuid_parse(p.1) {
                None => Err(invalid_cursor()),
                Some(id) => Ok((Date { year: t.0 as i32, month: t.1 as u32, day: t.2 as u32 }, id)),
            },
        },
    }
}

/// The cursor a canonical cursor text spells (four-digit-year date,
/// hyphenated lowercase UUID), when it has that form.
pub open spec fn cursor_inverse(s: Seq<char>) -> Option<Cursor> {
    match split_once_spec(s, '_') {
        None => None,
        Some(p) => match (iso_inverse(p.0), hyphenated_inverse(p.1)) {
            (Some(d), Some(id)) => Some((d, id)),
            _ => None,
        },
    }
}

/// Decode a cursor produced by [`encode_cursor`]. Any malformed value is
/// rejected rather than trusted.
pub fn parse_cursor(input: &str) -> (r: Result<Cursor, TransactionError>)
    ensures
        r == cursor_spec(input@),
        r matches Ok(c) ==> c.0.valid(),
        cursor_inverse(input@) matches Some(c) ==> r == Ok::<Cursor, TransactionError>(c),
{
    let (date, id) = match split_once(input, '_') {
        Some(p) => p,
        None => return Err(TransactionError::InvalidInput("invalid page cursor")),
    };
    let date = match Date::parse_iso(date.as_str()) {
        Some(d) => d,
        None => return Err(TransactionError::InvalidInput("invalid page cursor")),
    };
    let id = match uuid_from_str(id.as_str()) {
        Some(id) => id,
        None => return Err(TransactionError::InvalidInput("invalid page cursor")),
    };
    Ok((date, id))
}

proof fn lemma_no_underscore_in_iso(d: Date, i: int)
    requires
        d.valid(),
        0 <= d.year <= 9999,
        0 <= i < iso_spec(d).len(),
    ensures
        iso_spec(d)[i] != '_',
{
}

/// Reading back the text of a cursor whose date has a four-digit year gives
/// the cursor.
pub proof fn lemma_cursor_round_trip(c: Cursor)
    requires
        c.0.valid(),
        0 <= c.0.year <= 9999,
    ensures
        cursor_inverse(cursor_text_spec(c)) == Some(c),
{
    let s = cursor_text_spec(c);
    let d = iso_spec(c.0);
    assert(d.len() == 10);
    assert forall|i: int| 0 <= i < 10 implies s[i] != '_' by {
        lemma_no_underscore_in_iso(c.0, i);
        assert(s[i] == d[i]);
    }
    assert forall|n: nat| n <= 10 implies find_char(s, '_', n) is None by {
        lemma_find_none_prefix(s, n);
    }
    assert(s[10] == '_');
    assert(find_char(s, '_', 10) is None);
    assert(find_char(s, '_', 11) == Some(10int));
    crate::text::lemma_find_char_stays(s, '_', 11, s.len());
    assert(s.subrange(0, 10) =~= d);
    assert(s.subrange(11, s.len() as int) =~= uuid_text_spec(c.1));
    lemma_iso_round_trip(c.0);
    lemma_uuid_text_round_trip(c.1);
}

proof fn lemma_find_none_prefix(s: Seq<char>, n: nat)
    requires
        n <= 10,
        n <= s.len(),
        forall|i: int| 0 <= i < 10 ==> s[i] != '_',
    ensures
        find_char(s, '_', n) is None,
    decreases n,
{
    if n > 0 {
        lemma_find_none_prefix(s, (n - 1) as nat);
    }
}

/// `(mantissa magnitude, scale)` with trailing zero digits removed, as
/// `BigDecimal::normalized` does.
pub open spec fn normalized_spec(mag: nat, scale: int) -> (nat, int)
    decreases mag,
{
    if mag > 0 && mag % 10 == 0 {
        normalized_spec(mag / 10, scale - 1)
    } else {
        (mag, scale)
    }
}

/// `n` with the sign of `m`.
pub open spec fn with_sign_of(m: int, n: nat) -> int {
    if m < 0 {
        -n
    } else {
        n as int
    }
}

/// What [`validate_amount`] gives for `input`: a number, not zero, with at
/// most 18 fractional and 20 integer digits once trailing zeros are set
/// aside; the value is kept exactly as written.
pub open spec fn amount_spec(input: Seq<char>) -> Result<Decimal, TransactionError> {
    match bd_parse(trim_spec(input)) {
        None => Err(TransactionError::InvalidInput("amount must be a number")),
        Some(q) => amount_spec_of(q),
    }
}

/// What [`validate_amount`] gives for a text that parses to `q`. A scale so
/// negative that normalising it leaves the `i64` range (where `bigdecimal`'s
/// own scale subtraction overflows) is a number of far more than 20 integer
/// digits, and is refused as too large.
pub open spec fn amount_spec_of(q: (int, int)) -> Result<Decimal, TransactionError> {
    if q.0 == 0 {
        Err(TransactionError::InvalidInput("amount must not be zero"))
    } else if !fits_i64(q.1 - digit_count(magnitude(q.0))) {
        Err(TransactionError::InvalidInput("amount is too large"))
    } else {
        let n = normalized_spec(magnitude(q.0), q.1);
        if n.1 > AMOUNT_SCALE {
            Err(TransactionError::InvalidInput("amount has too many decimal places"))
        } else if digit_count(n.0) - n.1 > AMOUNT_INTEGER_DIGITS {
            Err(TransactionError::InvalidInput("amount is too large"))
        } else {
            Ok(dec(q.0, q.1))
        }
    }
}

/// `BigDecimal::normalized`: the mantissa's trailing zero digits dropped
/// and the scale lowered by as many (`bigdecimal` strips the zeros of the
/// decimal digits and subtracts their count from the scale). The value is
/// non-zero and its scale minus its digit count fits an `i64`, so the
/// subtraction cannot overflow.
#[verifier::external_body]
fn bd_normalized(negative: bool, limbs: &Vec<u32>, scale: i64) -> (r: (bool, Vec<u32>, i64))
    requires
        signed(negative, limbs@) != 0,
        fits_i64(scale - digit_count(magnitude(signed(negative, limbs@)))),
    ensures
        parts_canonical(r.0, r.1@),
        r.2 == normalized_spec(magnitude(signed(negative, limbs@)), scale as int).1,
        signed(r.0, r.1@) == with_sign_of(
            signed(negative, limbs@),
            normalized_spec(magnitude(signed(negative, limbs@)), scale as int).0,
        ),
{
    let sign = if negative { Sign::Minus } else { Sign::Plus };
    let value = BigDecimal::new(BigInt::new(sign, limbs.clone()), scale);
    let (int_val, e) = value.normalized().into_bigint_and_exponent();
    let (sign, digits) = int_val.to_u32_digits();
    (sign == Sign::Minus, digits, e)
}

/// Parse and validate a user-supplied amount into an exact decimal: it must
/// be a number, must not be zero, and must fit `NUMERIC(38, 18)`. The sign
/// and scale are preserved exactly as written; nothing is rounded.
pub fn validate_amount(input: &str) -> (r: Result<Decimal, TransactionError>)
    ensures
        r == amount_spec(input@),
{
    let trimmed = trim(input);
    let d = match Decimal::parse(trimmed.as_str()) {
        None => return Err(TransactionError::InvalidInput("amount must be a number")),
        Some(d) => d,
    };
    proof {
        let q = bd_parse(trim_spec(input@))->0;
        lemma_dec_m(q.0, q.1);
    }
    if d.is_zero() {
        return Err(TransactionError::InvalidInput("amount must not be zero"));
    }
    let digits = d.digits();
    let lowest: i128 = i64::MIN as i128;
    if (d.scale as i128) - (digits as i128) < lowest {
        return Err(TransactionError::InvalidInput("amount is too large"));
    }
    let limbs = limbs_vec(&d.mantissa.magnitude);
    let (nn, nl, ns) = bd_normalized(d.mantissa.negative, &limbs, d.scale);
    if ns > AMOUNT_SCALE {
        return Err(TransactionError::InvalidInput("amount has too many decimal places"));
    }
    let ghost nv = signed(nn, nl@);
    let n = from_parts(nn, nl, ns);
    proof {
        lemma_dec_m(nv, ns as int);
    }
    let nd = n.digits();
    proof {
        let q = bd_parse(trim_spec(input@))->0;
        let k = normalized_spec(magnitude(q.0), q.1);
        assert(magnitude(with_sign_of(q.0, k.0)) == k.0);
    }
    let most: i128 = AMOUNT_INTEGER_DIGITS as i128;
    if (nd as i128) - (ns as i128) > most {
        return Err(TransactionError::InvalidInput("amount is too large"));
    }
    Ok(d)
}

/// What a required date field gives: the trimmed text read as `chrono`
/// reads `%Y-%m-%d`, or the error `message`.
pub open spec fn date_field_spec(input: Seq<char>, message: &'static str) -> Result<
    Date,
    TransactionError,
> {
    match chrono_parse_ymd(trim_spec(input)) {
        None => Err(TransactionError::InvalidInput(message)),
        Some(t) => Ok(Date { year: t.0 as i32, month: t.1 as u32, day: t.2 as u32 }),
    }
}

/// Parse a trimmed date field.
fn parse_date_field(input: &str, message: &'static str) -> (r: Result<Date, TransactionError>)
    ensures
        r == date_field_spec(input@, message),
        r matches Ok(d) ==> d.valid(),
{
    let t = trim(input);
    match Date::parse_iso(t.as_str()) {
        Some(d) => Ok(d),
        None => Err(TransactionError::InvalidInput(message)),
    }
}

/// Parse a required ISO `YYYY-MM-DD` booking date.
pub fn validate_booking_date(input: &str) -> (r: Result<Date, TransactionError>)
    ensures
        r == date_field_spec(input@, "booking date is invalid"),
        r matches Ok(d) ==> d.valid(),
{
    parse_date_field(input, "booking date is invalid")
}

/// What an optional date field gives: absent when blank or missing,
/// otherwise the trimmed text read as `chrono` reads `%Y-%m-%d`, or the
/// error `message`.
pub open spec fn optional_date_spec(input: Option<Seq<char>>, message: &'static str) -> Result<
    Option<Date>,
    TransactionError,
> {
    match optional_nonblank_spec(input) {
        None => Ok(None),
        Some(t) => match chrono_parse_ymd(t) {
            None => Err(TransactionError::InvalidInput(message)),
            Some(p) => Ok(Some(Date { year: p.0 as i32, month: p.1 as u32, day: p.2 as u32 })),
        },
    }
}

/// Parse an optional field as a date, blank meaning absent.
fn parse_optional_date(input: Option<&str>, message: &'static str) -> (r: Result<
    Option<Date>,
    TransactionError,
>)
    ensures
        r == optional_date_spec(opt_view(input), message),
        r matches Ok(Some(d)) ==> d.valid(),
{
    match optional_trimmed(input) {
        None => Ok(None),
        Some(t) => match Date::parse_iso(t.as_str()) {
            Some(d) => Ok(Some(d)),
            None => Err(TransactionError::InvalidInput(message)),
        },
    }
}

/// Parse an optional ISO `YYYY-MM-DD` value date, treating a blank or absent
/// field as "no value date".
pub fn validate_value_date(input: Option<&str>) -> (r: Result<Option<Date>, TransactionError>)
    ensures
        r == optional_date_spec(opt_view(input), "value date is invalid"),
        r matches Ok(Some(d)) ==> d.valid(),
{
    parse_optional_date(input, "value date is invalid")
}

/// What [`validate_date_range`] gives.
pub open spec fn date_range_spec(from: Option<Seq<char>>, to: Option<Seq<char>>) -> Result<
    (Option<Date>, Option<Date>),
    TransactionError,
> {
    match optional_date_spec(from, "a filter date is invalid") {
        Err(e) => Err(e),
        Ok(f) => match optional_date_spec(to, "a filter date is invalid") {
            Err(e) => Err(e),
            Ok(t) => match (f, t) {
                (Some(start), Some(end)) => if end.before(start) {
                    Err(TransactionError::InvalidInput("the start date is after the end date"))
                } else {
                    Ok((f, t))
                },
                _ => Ok((f, t)),
            },
        },
    }
}

/// Parse the `from` / `to` bounds of a date-range filter. A blank or absent
/// bound is "unbounded on that side"; both bounds are inclusive. Rejects a
/// range whose start is after its end.
pub fn validate_date_range(from: Option<&str>, to: Option<&str>) -> (r: Result<
    (Option<Date>, Option<Date>),
    TransactionError,
>)
    ensures
        r == date_range_spec(opt_view(from), opt_view(to)),
{
    let from = parse_optional_date(from, "a filter date is invalid")?;
    let to = parse_optional_date(to, "a filter date is invalid")?;
    if let (Some(start), Some(end)) = (from, to) {
        if end.is_before(&start) {
            return Err(TransactionError::InvalidInput("the start date is after the end date"));
        }
    }
    Ok((from, to))
}

/// What [`resolve_dates`] gives.
pub open spec fn resolve_dates_spec(booking: Date, value: Option<Date>, is_cash: bool) -> Result<
    (Date, Option<Date>),
    TransactionError,
> {
    if is_cash {
        Ok((booking, Some(booking)))
    } else {
        match value {
            Some(v) => if v.before(booking) {
                Err(
                    TransactionError::InvalidInput(
                        "the value date cannot be before the booking date",
                    ),
                )
            } else {
                Ok((booking, value))
            },
            None => Ok((booking, value)),
        }
    }
}

/// Reconcile a transaction's booking and value dates. A cash account keeps a
/// single date, so the value date is forced equal to the booking date;
/// otherwise a supplied value date must not precede the booking date.
pub fn resolve_dates(booking_date: Date, value_date: Option<Date>, is_cash: bool) -> (r: Result<
    (Date, Option<Date>),
    TransactionError,
>)
    ensures
        r == resolve_dates_spec(booking_date, value_date, is_cash),
{
    if is_cash {
        return Ok((booking_date, Some(booking_date)));
    }
    if let Some(value) = value_date {
        if value.is_before(&booking_date) {
            return Err(
                TransactionError::InvalidInput("the value date cannot be before the booking date"),
            );
        }
    }
    Ok((booking_date, value_date))
}

/// What an optional id field gives: absent when blank, otherwise the trimmed
/// text read as a UUID, or the error `message`.
pub open spec fn optional_id_spec(value: Seq<char>, message: &'static str) -> Result<
    Option<u128>,
    TransactionError,
> {
    match nonblank_spec(value) {
        None => Ok(None),
        Some(t) => match uuid_parse(t) {
            Some(id) => Ok(Some(id)),
            None => Err(TransactionError::InvalidInput(message)),
        },
    }
}

/// Parse an optional id form field: a blank value is `None`, otherwise it
/// must be a valid UUID. Ownership of the referenced row is checked
/// elsewhere.
pub fn parse_optional_id(value: &str, message: &'static str) -> (r: Result<
    Option<u128>,
    TransactionError,
>)
    ensures
        r == optional_id_spec(value@, message),
{
    match trimmed_nonblank(value) {
        None => Ok(None),
        Some(t) => match uuid_from_str(t.as_str()) {
            Some(id) => Ok(Some(id)),
            None => Err(TransactionError::InvalidInput(message)),
        },
    }
}

/// What [`parse_list_filter`] gives: the account id (empty means every
/// account), the date range, then the cursor (empty means the first page),
/// each checked in that order.
pub open spec fn list_filter_spec(
    account_id: Option<Seq<char>>,
    from: Option<Seq<char>>,
    to: Option<Seq<char>>,
    cursor: Option<Seq<char>>,
) -> Result<TransactionFilter, TransactionError> {
    let account: Result<Option<u128>, TransactionError> = match account_id {
        Some(a) => if a.len() == 0 {
            Ok(None)
        } else {
            match uuid_parse(a) {
                Some(id) => Ok(Some(id)),
                None => Err(TransactionError::InvalidInput("invalid account id")),
            }
        },
        None => Ok(None),
    };
    match account {
        Err(e) => Err(e),
        Ok(account) => match date_range_spec(from, to) {
            Err(e) => Err(e),
            Ok(range) => {
                let after: Result<Option<Cursor>, TransactionError> = match cursor {
                    Some(c) => if c.len() == 0 {
                        Ok(None)
                    } else {
                        match cursor_spec(c) {
                            Ok(x) => Ok(Some(x)),
                            Err(e) => Err(e),
                        }
                    },
                    None => Ok(None),
                };
                match after {
                    Err(e) => Err(e),
                    Ok(after) => Ok(
                        TransactionFilter { account_id: account, from: range.0, to: range.1, after },
                    ),
                }
            },
        },
    }
}

/// Parse the raw list-query parameters into a [`TransactionFilter`].
pub fn parse_list_filter(
    account_id: Option<&str>,
    from: Option<&str>,
    to: Option<&str>,
    cursor: Option<&str>,
) -> (r: Result<TransactionFilter, TransactionError>)
    ensures
        r == list_filter_spec(opt_view(account_id), opt_view(from), opt_view(to), opt_view(cursor)),
{
    let account = match account_id {
        Some(a) => {
            if a.is_empty() {
                None
            } else {
                match uuid_from_str(a) {
                    Some(id) => Some(id),
                    None => return Err(TransactionError::InvalidInput("invalid account id")),
                }
            }
        },
        None => None,
    };
    let (from, to) = validate_date_range(from, to)?;
    let after = match cursor {
        Some(c) => {
            if c.is_empty() {
                None
            } else {
                Some(parse_cursor(c)?)
            }
        },
        None => None,
    };
    Ok(TransactionFilter { account_id: account, from, to, after })
}

/// The mutable fields of a transaction, shared by create and update.
#[derive(Debug, Clone)]
pub struct TransactionWrite {
    pub asset_id: u128,
    pub amount: Decimal,
    pub booking_date: Date,
    pub value_date: Option<Date>,
    pub category_id: Option<u128>,
    pub merchant_id: Option<u128>,
}

/// What [`parse_write`] gives: each field validated in form order, the first
/// failure reported.
pub open spec fn write_spec(
    asset_id: Seq<char>,
    amount: Seq<char>,
    booking_date: Seq<char>,
    value_date: Option<Seq<char>>,
    category_id: Seq<char>,
    merchant_id: Seq<char>,
) -> Result<TransactionWrite, TransactionError> {
    match uuid_parse(asset_id) {
        None => Err(TransactionError::InvalidInput("invalid currency id")),
        Some(asset) => match amount_spec(amount) {
            Err(e) => Err(e),
            Ok(a) => match date_field_spec(booking_date, "booking date is invalid") {
                Err(e) => Err(e),
                Ok(b) => match optional_date_spec(value_date, "value date is invalid") {
                    Err(e) => Err(e),
                    Ok(v) => match optional_id_spec(category_id, "invalid category id") {
                        Err(e) => Err(e),
                        Ok(c) => match optional_id_spec(merchant_id, "invalid merchant id") {
                            Err(e) => Err(e),
                            Ok(m) => Ok(
                                TransactionWrite {
                                    asset_id: asset,
                                    amount: a,
                                    booking_date: b,
                                    value_date: v,
                                    category_id: c,
                                    merchant_id: m,
                                },
                            ),
                        },
                    },
                },
            },
        },
    }
}

/// Validate the fields of a create or edit form into a [`TransactionWrite`].
pub fn parse_write(
    asset_id: &str,
    amount: &str,
    booking_date: &str,
    value_date: Option<&str>,
    category_id: &str,
    merchant_id: &str,
) -> (r: Result<TransactionWrite, TransactionError>)
    ensures
        r == write_spec(
            asset_id@,
            amount@,
            booking_date@,
            opt_view(value_date),
            category_id@,
            merchant_id@,
        ),
        r matches Ok(w) ==> w.booking_date.valid() && (w.value_date matches Some(v) ==> v.valid()),
{
    let asset = match uuid_from_str(asset_id) {
        Some(id) => id,
        None => return Err(TransactionError::InvalidInput("invalid currency id")),
    };
    let amount = validate_amount(amount)?;
    let booking_date = validate_booking_date(booking_date)?;
    let value_date = validate_value_date(value_date)?;
    let category_id = parse_optional_id(category_id, "invalid category id")?;
    let merchant_id = parse_optional_id(merchant_id, "invalid merchant id")?;
    Ok(
        TransactionWrite {
            asset_id: asset,
            amount,
            booking_date,
            value_date,
            category_id,
            merchant_id,
        },
    )
}

/// The transaction currency (what an amount is in).
#[derive(Debug, Clone)]
pub struct SourceAmount {
    pub asset_id: u128,
    pub amount: Decimal,
}

/// The account currency (what a transaction is translated into).
#[derive(Debug, Clone, Copy)]
pub struct TargetCurrency {
    pub asset_id: u128,
    pub minor_units: i16,
}

/// The `(account_amount, fx_rate, fx_rate_date)` trio for a transaction,
/// given the booking-date rate lookup's outcome (`None` when no rate could be
/// had):
/// - `(Some(amount), None, None)` when it is already in the account's
///   currency, whatever the lookup gave;
/// - the converted amount, the rate and the UTC day of the rate's instant
///   otherwise;
/// - `(None, None, None)`, "conversion pending", when there is no rate.
/// A rejected conversion, or an instant `chrono` cannot represent (no
/// `DateTime<Utc>` is such an instant), is an internal error.
pub fn compute_conversion(
    source: SourceAmount,
    target: TargetCurrency,
    rate: Option<ResolvedRate>,
) -> (r: Result<(Option<Decimal>, Option<Decimal>, Option<Date>), TransactionError>)
    ensures
        source.asset_id == target.asset_id ==> r == Ok::<
            (Option<Decimal>, Option<Decimal>, Option<Date>),
            TransactionError,
        >((Some(source.amount), None, None)),
        source.asset_id != target.asset_id ==> match rate {
            None => r == Ok::<
                (Option<Decimal>, Option<Decimal>, Option<Date>),
                TransactionError,
            >((None, None, None)),
            Some(q) => match converted_spec(
                source.amount,
                q.rate,
                source.asset_id,
                target.asset_id,
                target.minor_units,
                TRANSACTION_FX_ROUNDING,
            ) {
                Err(_) => r == Err::<
                    (Option<Decimal>, Option<Decimal>, Option<Date>),
                    TransactionError,
                >(TransactionError::Internal),
                Ok(c) => if chrono_instant(q.valuation_timestamp as int) {
                    r matches Ok(x) && x.0 == Some(c) && x.1 == Some(q.rate) && (x.2 matches Some(
                        d,
                    ) && d.valid() && days_from_civil(d.year as int, d.month as int, d.day as int)
                        == q.valuation_timestamp as int / 86_400_000_000)
                } else {
                    r == Err::<
                        (Option<Decimal>, Option<Decimal>, Option<Date>),
                        TransactionError,
                    >(TransactionError::Internal)
                },
            },
        },
{
    if source.asset_id == target.asset_id {
        return Ok((Some(source.amount), None, None));
    }
    let rate = match rate {
        None => return Ok((None, None, None)),
        Some(rate) => rate,
    };
    let converted = match convert(
        &source.amount,
        rate.rate,
        source.asset_id,
        target.asset_id,
        rate.valuation_timestamp,
        target.minor_units,
        TRANSACTION_FX_ROUNDING,
    ) {
        Ok(c) => c,
        Err(_) => return Err(TransactionError::Internal),
    };
    match utc_date_of(converted.valuation_timestamp) {
        Some(day) => Ok((Some(converted.converted_amount), Some(converted.rate), Some(day))),
        None => Err(TransactionError::Internal),
    }
}

} // verus!
