//! Transfers: two of a user's existing transactions linked as the two legs
//! of one movement of money between accounts, an outgoing (negative) leg on
//! one account and an incoming (positive) leg on another. A transfer stores
//! nothing of its own; this module decides which pairs may be linked and
//! labels the candidates the edit form offers.

use vstd::prelude::*;

use crate::date::{iso_spec, Date};
use crate::decimal::{bd_text, Decimal};
use crate::ids::{uuid_text, uuid_text_spec};
use crate::text::{append, opt_string_view};

verus! {

/// Why a transfer operation failed.
#[derive(Debug, Clone, Copy, PartialEq, Eq)]
pub enum TransferError {
    Unauthorized,
    TransactionNotFound,
    SameTransaction,
    SameAccount,
    AlreadyLinked,
    NotOpposite,
    InvalidInput(&'static str),
    Internal,
}

impl TransferError {
    /// The user-facing message for this error.
    pub fn message(&self) -> (r: &'static str)
        ensures
            r@ == (match *self {
                TransferError::Unauthorized => "you must be signed in to do this"@,
                TransferError::TransactionNotFound => "one of those transactions could not be found"@,
                TransferError::SameTransaction => "a transfer links two different transactions"@,
                TransferError::SameAccount => "the two transactions are on the same account"@,
                TransferError::AlreadyLinked => "one of those transactions is already part of a transfer"@,
                TransferError::NotOpposite => "a transfer needs one outgoing transaction and one incoming one"@,
                TransferError::InvalidInput(message) => message@,
                TransferError::Internal => "something went wrong"@,
            }),
    {
        match self {
            TransferError::Unauthorized => "you must be signed in to do this",
            TransferError::TransactionNotFound => "one of those transactions could not be found",
            TransferError::SameTransaction => "a transfer links two different transactions",
            TransferError::SameAccount => "the two transactions are on the same account",
            TransferError::AlreadyLinked => "one of those transactions is already part of a transfer",
            TransferError::NotOpposite =>
                "a transfer needs one outgoing transaction and one incoming one",
            TransferError::InvalidInput(message) => message,
            TransferError::Internal => "something went wrong",
        }
    }
}

/// One of the two transactions named for a link, as stored: its account,
/// its signed amount, and whether it already belongs to a transfer.
#[derive(Debug, Clone)]
pub struct LegRow {
    pub id: u128,
    pub account_id: u128,
    pub amount: Decimal,
    pub already_linked: bool,
}

/// The first row among the first `n` whose amount has the sign `positive`.
pub open spec fn first_with_sign(rows: Seq<LegRow>, positive: bool, n: nat) -> Option<u128>
    decreases n,
{
    if n == 0 {
        None
    } else {
        match first_with_sign(rows, positive, (n - 1) as nat) {
            Some(id) => Some(id),
            None => if (positive && rows[n - 1].amount.m() > 0) || (!positive
                && rows[n - 1].amount.m() < 0) {
                Some(rows[n - 1].id)
            } else {
                None
            },
        }
    }
}

/// What [`choose_legs`] decides for the ids `first` and `second` and the
/// user's live rows found for them: `(source, destination)`, the negative
/// leg and the positive one, or why they cannot be linked.
pub open spec fn legs_spec(first: u128, second: u128, rows: Seq<LegRow>) -> Result<
    (u128, u128),
    TransferError,
> {
    if first == second {
        Err(TransferError::SameTransaction)
    } else if rows.len() != 2 {
        Err(TransferError::TransactionNotFound)
    } else if rows[0].already_linked || rows[1].already_linked {
        Err(TransferError::AlreadyLinked)
    } else if rows[0].account_id == rows[1].account_id {
        Err(TransferError::SameAccount)
    } else {
        match (first_with_sign(rows, false, 2), first_with_sign(rows, true, 2)) {
            (Some(s), Some(d)) => Ok((s, d)),
            _ => Err(TransferError::NotOpposite),
        }
    }
}

/// The order in which the two transactions are named does not matter: the
/// same pair is linked, the negative one as the source, or the same reason
/// is given for refusing it.
pub proof fn lemma_link_order_irrelevant(first: u128, second: u128, rows: Seq<LegRow>)
    ensures
        legs_spec(first, second, rows) == legs_spec(second, first, rows),
{
}

/// A link runs from a row with a negative amount to a row with a positive
/// amount, both among the two rows found.
pub proof fn lemma_link_runs_from_negative_to_positive(
    first: u128,
    second: u128,
    rows: Seq<LegRow>,
)
    ensures
        legs_spec(first, second, rows) matches Ok((s, d)) ==> {
            &&& exists|i: int| 0 <= i < 2 && rows[i].id == s && rows[i].amount.m() < 0
            &&& exists|j: int| 0 <= j < 2 && rows[j].id == d && rows[j].amount.m() > 0
        },
{
    reveal_with_fuel(first_with_sign, 3);
}

/// A link is decided only for two different transactions, both found,
/// neither of them already part of a transfer, on different accounts.
pub proof fn lemma_link_only_free_legs(first: u128, second: u128, rows: Seq<LegRow>)
    ensures
        legs_spec(first, second, rows) is Ok ==> {
            &&& first != second
            &&& rows.len() == 2
            &&& forall|i: int| 0 <= i < rows.len() ==> !(#[trigger] rows[i]).already_linked
            &&& rows[0].account_id != rows[1].account_id
        },
        rows.len() == 2 && first != second && (rows[0].already_linked || rows[1].already_linked)
            ==> legs_spec(first, second, rows) == Err::<(u128, u128), TransferError>(
            TransferError::AlreadyLinked,
        ),
{
}

/// The verdict does not depend on the order in which the two rows were
/// found.
pub proof fn lemma_link_row_order_irrelevant(first: u128, second: u128, rows: Seq<LegRow>)
    requires
        rows.len() == 2,
    ensures
        legs_spec(first, second, rows) == legs_spec(first, second, seq![rows[1], rows[0]]),
{
    reveal_with_fuel(first_with_sign, 3);
    let sw = seq![rows[1], rows[0]];
    assert(sw[0] == rows[1] && sw[1] == rows[0]);
}

/// Decide a link: the two ids must differ; both must be the user's own live
/// transactions (two rows found), neither already part of a transfer, on
/// different accounts, one negative and one positive. The negative one
/// becomes the source, whatever the order of the arguments.
pub fn choose_legs(first: u128, second: u128, rows: &Vec<LegRow>) -> (r: Result<
    (u128, u128),
    TransferError,
>)
    ensures
        r == legs_spec(first, second, rows@),
{
    if first == second {
        return Err(TransferError::SameTransaction);
    }
    if rows.len() != 2 {
        return Err(TransferError::TransactionNotFound);
    }
    if rows[0].already_linked || rows[1].already_linked {
        return Err(TransferError::AlreadyLinked);
    }
    if rows[0].account_id == rows[1].account_id {
        return Err(TransferError::SameAccount);
    }
    let source = if rows[0].amount.is_negative() {
        Some(rows[0].id)
    } else if rows[1].amount.is_negative() {
        Some(rows[1].id)
    } else {
        None
    };
    let destination = if rows[0].amount.is_positive() {
        Some(rows[0].id)
    } else if rows[1].amount.is_positive() {
        Some(rows[1].id)
    } else {
        None
    };
    proof {
        reveal_with_fuel(first_with_sign, 3);
    }
    match (source, destination) {
        (Some(s), Some(d)) => Ok((s, d)),
        _ => Err(TransferError::NotOpposite),
    }
}

/// One transaction offered in the "Paired transaction" picker, with a
/// ready-to-show label.
#[derive(Debug, Clone)]
pub struct CandidateRow {
    pub transaction_id: u128,
    pub label: String,
}

/// The current pair, if any, and the transactions one could link instead.
#[derive(Debug, Clone)]
pub struct LinkOptions {
    pub current_pair: Option<CandidateRow>,
    pub candidates: Vec<CandidateRow>,
}

/// A picker entry as the browser receives it.
#[derive(Clone, Debug, PartialEq)]
pub struct LinkCandidate {
    pub transaction_id: String,
    pub label: String,
}

/// The picker's choices as the browser receives them.
#[derive(Clone, Debug, PartialEq)]
pub struct TransferLinkOptions {
    pub current_pair: Option<LinkCandidate>,
    pub candidates: Vec<LinkCandidate>,
}

/// The label of a candidate: `date · account · signed amount code`, the
/// sign `+` shown only on a positive amount.
pub open spec fn label_spec(
    booking_date: Date,
    account_name: Seq<char>,
    amount: Decimal,
    currency_code: Seq<char>,
) -> Seq<char> {
    iso_spec(booking_date) + " \u{b7} "@ + account_name + " \u{b7} "@ + (if amount.m() > 0 {
        "+"@
    } else {
        Seq::empty()
    }) + bd_text(amount.m(), amount.scale as int) + " "@ + currency_code
}

/// Build the display label for a candidate: `date · account · signed amount
/// code`.
pub fn candidate_label(
    booking_date: Date,
    account_name: &str,
    amount: &Decimal,
    currency_code: &str,
) -> (r: String)
    requires
        booking_date.valid(),
    ensures
        r@ == label_spec(booking_date, account_name@, *amount, currency_code@),
{
    let mut s = booking_date.iso_text();
    append(&mut s, " \u{b7} ");
    append(&mut s, account_name);
    append(&mut s, " \u{b7} ");
    let ghost before_sign = s@;
    if amount.is_positive() {
        append(&mut s, "+");
    } else {
        assert(before_sign + Seq::<char>::empty() =~= before_sign);
    }
    let text = amount.to_text();
    append(&mut s, text.as_str());
    append(&mut s, " ");
    append(&mut s, currency_code);
    assert(s@ =~= label_spec(booking_date, account_name@, *amount, currency_code@));
    s
}

/// A picker entry for the browser: its id as text, its label unchanged.
pub fn to_dto(row: CandidateRow) -> (r: LinkCandidate)
    ensures
        r.transaction_id@ == uuid_text_spec(row.transaction_id),
        r.label@ == row.label@,
{
    LinkCandidate { transaction_id: uuid_text(row.transaction_id), label: row.label }
}

/// The picker's choices for the browser, in the same order.
pub fn options_to_dto(options: LinkOptions) -> (r: TransferLinkOptions)
    ensures
        r.candidates@.len() == options.candidates@.len(),
        forall|i: int|
            0 <= i < r.candidates@.len() ==> (#[trigger] r.candidates@[i]).transaction_id@
                == uuid_text_spec(options.candidates@[i].transaction_id)
                && r.candidates@[i].label@ == options.candidates@[i].label@,
        match options.current_pair {
            None => r.current_pair is None,
            Some(p) => r.current_pair matches Some(c) && c.transaction_id@ == uuid_text_spec(
                p.transaction_id,
            ) && c.label@ == p.label@,
        },
{
    let ghost all = options.candidates@;
    let current_pair = match options.current_pair {
        None => None,
        Some(p) => Some(to_dto(p)),
    };
    let mut rest = options.candidates;
    let mut out: Vec<LinkCandidate> = Vec::new();
    let mut k: usize = 0;
    let total = rest.len();
    assert(all.skip(0) =~= all);
    while rest.len() > 0
        invariant
            k <= all.len(),
            total == all.len(),
            rest@ == all.skip(k as int),
            out@.len() == k,
            forall|i: int|
                0 <= i < k ==> (#[trigger] out@[i]).transaction_id@ == uuid_text_spec(
                    all[i].transaction_id,
                ) && out@[i].label@ == all[i].label@,
        decreases rest.len(),
    {
        let row = rest.remove(0);
        assert(row == all[k as int]);
        assert(rest@ =~= all.skip(k + 1));
        out.push(to_dto(row));
        k = k + 1;
    }
    TransferLinkOptions { current_pair, candidates: out }
}

} // verus!
