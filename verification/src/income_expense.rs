//! Income vs expense over an inclusive period, grouped by category.
//!
//! Each `(category, currency)` subtotal is valued into the display currency
//! at its pre-resolved rate; the parts of one category are rolled into a
//! single net, and each group is placed on the income or expense side by the
//! sign of that net (the category's kind is only a label). A part with no
//! rate stays visible unvalued, marks the report incomplete, and is left out
//! of every net and total.

use vstd::prelude::*;

use std::collections::HashMap;

use crate::assets::conversion::{convert, converted_spec};
use crate::assets::rates::ResolvedRate;
use crate::categories::CategoryKind;
use crate::date::{chrono_parse_ymd, Date};
use crate::decimal::{add_spec, dec, dup_opt, lemma_add_keeps_sign, Decimal, Rounding};
use crate::net_worth::lookup_rate;
use crate::text::{nonblank_spec, opt_string_view, trimmed_nonblank};

verus! {

broadcast use vstd::std_specs::hash::group_hash_axioms;

/// Rounding applied when a part is converted into the display currency.
pub const INCOME_EXPENSE_ROUNDING: Rounding = Rounding::HalfEven;

/// Why an income-vs-expense report could not be produced.
#[derive(Debug, Clone, Copy, PartialEq, Eq)]
pub enum IncomeExpenseError {
    Unauthorized,
    InvalidInput(&'static str),
    CurrencyNotFound,
    Internal,
}

impl IncomeExpenseError {
    /// The user-facing message for this error.
    pub fn message(&self) -> (r: &'static str)
        ensures
            r@ == (match *self {
                IncomeExpenseError::Unauthorized => "you must be signed in to do this"@,
                IncomeExpenseError::InvalidInput(message) => message@,
                IncomeExpenseError::CurrencyNotFound => "that display currency does not exist"@,
                IncomeExpenseError::Internal => "something went wrong"@,
            }),
    {
        match self {
            IncomeExpenseError::Unauthorized => "you must be signed in to do this",
            IncomeExpenseError::InvalidInput(message) => message,
            IncomeExpenseError::CurrencyNotFound => "that display currency does not exist",
            IncomeExpenseError::Internal => "something went wrong",
        }
    }
}

/// The currency the report is expressed in.
#[derive(Debug, Clone)]
pub struct DisplayCurrency {
    pub asset_id: u128,
    pub alphabetic_code: String,
    pub minor_units: i16,
}

/// A category's signed net in one currency, exact and unconverted.
/// `kind` is `None` exactly for the uncategorised bucket.
#[derive(Debug, Clone)]
pub struct CategorySubtotal {
    pub category_id: Option<u128>,
    pub category_name: Option<String>,
    pub category_deleted: bool,
    pub kind: Option<CategoryKind>,
    pub asset_id: u128,
    pub currency_code: String,
    pub subtotal: Decimal,
}

/// One currency's contribution to a group, valued into the display currency.
#[derive(Debug, Clone)]
pub struct CurrencyPart {
    pub currency_code: String,
    pub amount: Decimal,
    pub converted_amount: Option<Decimal>,
    pub rate: Option<Decimal>,
}

/// One group: a category across all its currencies, or the uncategorised
/// bucket.
#[derive(Debug, Clone)]
pub struct GroupLine {
    pub category_id: Option<u128>,
    pub category_name: Option<String>,
    pub category_kind: Option<CategoryKind>,
    pub category_deleted: bool,
    pub converted_net: Option<Decimal>,
    pub complete: bool,
    pub currencies: Vec<CurrencyPart>,
}

/// The outcome of folding and placing every group.
#[derive(Debug, Clone)]
pub struct Summary {
    pub income_lines: Vec<GroupLine>,
    pub expense_lines: Vec<GroupLine>,
    pub unvalued_lines: Vec<GroupLine>,
    pub total_income: Decimal,
    pub total_expense: Decimal,
    pub net: Decimal,
    pub complete: bool,
}

/// The whole report: the period, the display currency and the placed groups.
#[derive(Debug, Clone)]
pub struct Report {
    pub from: Date,
    pub to: Date,
    pub display: DisplayCurrency,
    pub income_lines: Vec<GroupLine>,
    pub expense_lines: Vec<GroupLine>,
    pub unvalued_lines: Vec<GroupLine>,
    pub total_income: Decimal,
    pub total_expense: Decimal,
    pub net: Decimal,
    pub complete: bool,
}

/// The required period bound `value`: trimmed, present, and a date.
pub open spec fn bound_spec(value: Seq<char>, missing: &'static str) -> Result<
    (int, int, int),
    IncomeExpenseError,
> {
    match nonblank_spec(value) {
        None => Err(IncomeExpenseError::InvalidInput(missing)),
        Some(t) => match chrono_parse_ymd(t) {
            None => Err(IncomeExpenseError::InvalidInput("a period date is invalid")),
            Some(d) => Ok(d),
        },
    }
}

fn parse_bound(value: &str, missing: &'static str) -> (r: Result<Date, IncomeExpenseError>)
    ensures
        r matches Ok(d) ==> d.valid() && bound_spec(value@, missing) == Ok::<
            (int, int, int),
            IncomeExpenseError,
        >((d.year as int, d.month as int, d.day as int)),
        r matches Err(e) ==> bound_spec(value@, missing) == Err::<(int, int, int), IncomeExpenseError>(
            e,
        ),
{
    match trimmed_nonblank(value) {
        None => Err(IncomeExpenseError::InvalidInput(missing)),
        Some(t) => match Date::parse_iso(t.as_str()) {
            None => Err(IncomeExpenseError::InvalidInput("a period date is invalid")),
            Some(d) => Ok(d),
        },
    }
}

/// Parse the required, inclusive `[from, to]` period: both bounds present,
/// `YYYY-MM-DD`, and `from <= to`.
pub fn parse_period(from: &str, to: &str) -> (r: Result<(Date, Date), IncomeExpenseError>)
    ensures
        r matches Ok((f, t)) ==> {
            &&& f.valid() && t.valid()
            &&& bound_spec(from@, "a start date is required") == Ok::<
                (int, int, int),
                IncomeExpenseError,
            >((f.year as int, f.month as int, f.day as int))
            &&& bound_spec(to@, "an end date is required") == Ok::<
                (int, int, int),
                IncomeExpenseError,
            >((t.year as int, t.month as int, t.day as int))
            &&& !t.before(f)
        },
        r matches Err(e) ==> {
            ||| bound_spec(from@, "a start date is required") == Err::<
                (int, int, int),
                IncomeExpenseError,
            >(e)
            ||| (bound_spec(from@, "a start date is required") is Ok && bound_spec(
                to@,
                "an end date is required",
            ) == Err::<(int, int, int), IncomeExpenseError>(e))
            ||| (bound_spec(from@, "a start date is required") is Ok && bound_spec(
                to@,
                "an end date is required",
            ) is Ok && e == IncomeExpenseError::InvalidInput(
                "the start date is after the end date",
            ) && ({
                let f = bound_spec(from@, "a start date is required")->Ok_0;
                let t = bound_spec(to@, "an end date is required")->Ok_0;
                (Date { year: t.0 as i32, month: t.1 as u32, day: t.2 as u32 }).before(
                    Date { year: f.0 as i32, month: f.1 as u32, day: f.2 as u32 },
                )
            }))
        },
{
    let f = parse_bound(from, "a start date is required")?;
    let t = parse_bound(to, "an end date is required")?;
    if t.is_before(&f) {
        return Err(IncomeExpenseError::InvalidInput("the start date is after the end date"));
    }
    Ok((f, t))
}

/// The view of a currency part: `(code, amount, converted, rate)`.
pub open spec fn part_view(p: CurrencyPart) -> (Seq<char>, Decimal, Option<Decimal>, Option<
    Decimal,
>) {
    (p.currency_code@, p.amount, p.converted_amount, p.rate)
}

/// The part a subtotal becomes, or `None` when its conversion is rejected.
pub open spec fn part_spec(
    s: CategorySubtotal,
    display: DisplayCurrency,
    resolved: Map<u128, ResolvedRate>,
) -> Option<(Seq<char>, Decimal, Option<Decimal>, Option<Decimal>)> {
    if s.asset_id == display.asset_id {
        Some((s.currency_code@, s.subtotal, Some(s.subtotal), None))
    } else if resolved.contains_key(s.asset_id) {
        match converted_spec(
            s.subtotal,
            resolved[s.asset_id].rate,
            s.asset_id,
            display.asset_id,
            display.minor_units,
            INCOME_EXPENSE_ROUNDING,
        ) {
            Ok(c) => Some((s.currency_code@, s.subtotal, Some(c), Some(resolved[s.asset_id].rate))),
            Err(_) => None,
        }
    } else {
        Some((s.currency_code@, s.subtotal, None, None))
    }
}

/// Whether `k` is among the group keys in `acc`.
pub open spec fn has_key(acc: Seq<(Option<u128>, int)>, k: Option<u128>) -> bool {
    exists|j: int| 0 <= j < acc.len() && acc[j].0 == k
}

/// The distinct category keys of the first `n` subtotals, in first-mention
/// order, each with the index of its first subtotal.
pub open spec fn distinct_prefix(subs: Seq<CategorySubtotal>, n: nat) -> Seq<(Option<u128>, int)>
    decreases n,
{
    if n == 0 {
        Seq::empty()
    } else {
        let acc = distinct_prefix(subs, (n - 1) as nat);
        if has_key(acc, subs[n - 1].category_id) {
            acc
        } else {
            acc.push((subs[n - 1].category_id, n - 1))
        }
    }
}

/// The parts, in order, of the first `n` subtotals that belong to key `k`.
pub open spec fn select_parts(
    subs: Seq<CategorySubtotal>,
    display: DisplayCurrency,
    resolved: Map<u128, ResolvedRate>,
    k: Option<u128>,
    n: nat,
) -> Seq<(Seq<char>, Decimal, Option<Decimal>, Option<Decimal>)>
    decreases n,
{
    if n == 0 {
        Seq::empty()
    } else {
        let acc = select_parts(subs, display, resolved, k, (n - 1) as nat);
        if subs[n - 1].category_id == k {
            acc.push(part_spec(subs[n - 1], display, resolved)->0)
        } else {
            acc
        }
    }
}

/// `(any valued, sum of valued)` over the first `n` parts, `None` when the
/// sum's terms have scales too far apart to align in an `i64`.
pub open spec fn net_prefix(ps: Seq<(Seq<char>, Decimal, Option<Decimal>, Option<Decimal>)>, n: nat) -> Option<
    (bool, Decimal),
>
    decreases n,
{
    if n == 0 {
        Some((false, dec(0, 0)))
    } else {
        match net_prefix(ps, (n - 1) as nat) {
            None => None,
            Some(acc) => match ps[n - 1].2 {
                None => Some(acc),
                Some(c) => match add_spec(acc.1, c) {
                    None => None,
                    Some(t) => Some((true, t)),
                },
            },
        }
    }
}

/// Whether every part is valued.
pub open spec fn all_valued(ps: Seq<(Seq<char>, Decimal, Option<Decimal>, Option<Decimal>)>) -> bool {
    forall|i: int| 0 <= i < ps.len() ==> (#[trigger] ps[i]).2 is Some
}

/// Which side of the report a group lands on.
#[derive(Debug, Clone, Copy, PartialEq, Eq)]
pub enum Side {
    Income,
    Expense,
    /// Net exactly zero with nothing unvalued: nothing to show.
    Omit,
    /// No sign can be determined (several currencies, none valued).
    Unvalued,
}

/// The side for a group with `net` over parts `ps`: by the sign of the net,
/// falling back to the single native currency's sign when nothing could be
/// valued (never mixing currencies to get a sign).
pub open spec fn side_spec(
    net: Option<Decimal>,
    ps: Seq<(Seq<char>, Decimal, Option<Decimal>, Option<Decimal>)>,
) -> Side {
    let fallback = if ps.len() == 1 {
        if ps[0].1.m() > 0 {
            Side::Income
        } else if ps[0].1.m() < 0 {
            Side::Expense
        } else {
            Side::Omit
        }
    } else {
        Side::Unvalued
    };
    match net {
        Some(n) => if n.m() > 0 {
            Side::Income
        } else if n.m() < 0 {
            Side::Expense
        } else if all_valued(ps) {
            Side::Omit
        } else {
            fallback
        },
        None => fallback,
    }
}

/// A group as the report sees it.
pub struct GroupSpec {
    pub key: Option<u128>,
    pub name: Option<Seq<char>>,
    pub kind: Option<CategoryKind>,
    pub deleted: bool,
    pub net: Option<Decimal>,
    pub complete: bool,
    pub parts: Seq<(Seq<char>, Decimal, Option<Decimal>, Option<Decimal>)>,
    pub side: Side,
}

/// The group for key `d.0` (first mentioned by subtotal `d.1`), or `None`
/// when its net's terms have scales too far apart to align in an `i64`.
pub open spec fn group_spec(
    subs: Seq<CategorySubtotal>,
    display: DisplayCurrency,
    resolved: Map<u128, ResolvedRate>,
    d: (Option<u128>, int),
) -> Option<GroupSpec> {
    let first = subs[d.1];
    let ps = select_parts(subs, display, resolved, d.0, subs.len());
    match net_prefix(ps, ps.len()) {
        None => None,
        Some(acc) => {
            let net = if acc.0 {
                Some(acc.1)
            } else {
                None
            };
            Some(
                GroupSpec {
                    key: d.0,
                    name: opt_string_view(first.category_name),
                    kind: first.kind,
                    deleted: first.category_deleted,
                    net,
                    complete: all_valued(ps),
                    parts: ps,
                    side: side_spec(net, ps),
                },
            )
        },
    }
}

/// The placed groups and side totals after the first `n` groups.
pub struct Placement {
    pub income: Seq<GroupSpec>,
    pub expense: Seq<GroupSpec>,
    pub unvalued: Seq<GroupSpec>,
    pub total_income: Decimal,
    pub total_expense: Decimal,
}

/// Place the first `n` groups of `ds`, accumulating the side totals.
pub open spec fn placed(
    subs: Seq<CategorySubtotal>,
    display: DisplayCurrency,
    resolved: Map<u128, ResolvedRate>,
    ds: Seq<(Option<u128>, int)>,
    n: nat,
) -> Option<Placement>
    decreases n,
{
    if n == 0 {
        Some(
            Placement {
                income: Seq::empty(),
                expense: Seq::empty(),
                unvalued: Seq::empty(),
                total_income: dec(0, 0),
                total_expense: dec(0, 0),
            },
        )
    } else {
        match placed(subs, display, resolved, ds, (n - 1) as nat) {
            None => None,
            Some(p) => match group_spec(subs, display, resolved, ds[n - 1]) {
                None => None,
                Some(g) => match g.side {
                    Side::Income => match g.net {
                        None => Some(Placement { income: p.income.push(g), ..p }),
                        Some(v) => match add_spec(p.total_income, v) {
                            None => None,
                            Some(t) => Some(
                                Placement { income: p.income.push(g), total_income: t, ..p },
                            ),
                        },
                    },
                    Side::Expense => match g.net {
                        None => Some(Placement { expense: p.expense.push(g), ..p }),
                        Some(v) => match add_spec(p.total_expense, v) {
                            None => None,
                            Some(t) => Some(
                                Placement { expense: p.expense.push(g), total_expense: t, ..p },
                            ),
                        },
                    },
                    Side::Unvalued => Some(Placement { unvalued: p.unvalued.push(g), ..p }),
                    Side::Omit => Some(p),
                },
            },
        }
    }
}

/// Whether every subtotal's conversion is accepted.
pub open spec fn parts_ok(
    subs: Seq<CategorySubtotal>,
    display: DisplayCurrency,
    resolved: Map<u128, ResolvedRate>,
) -> bool {
    forall|i: int| 0 <= i < subs.len() ==> (#[trigger] part_spec(subs[i], display, resolved)) is Some
}

/// Whether every subtotal is valued.
pub open spec fn complete_spec(
    subs: Seq<CategorySubtotal>,
    display: DisplayCurrency,
    resolved: Map<u128, ResolvedRate>,
) -> bool {
    forall|i: int|
        0 <= i < subs.len() ==> ((#[trigger] part_spec(subs[i], display, resolved))->0).2 is Some
}

/// The placement [`summarise`] computes, or `None` when it fails.
pub open spec fn summary_placement(
    subs: Seq<CategorySubtotal>,
    display: DisplayCurrency,
    resolved: Map<u128, ResolvedRate>,
) -> Option<Placement> {
    if !parts_ok(subs, display, resolved) {
        None
    } else {
        let ds = distinct_prefix(subs, subs.len());
        placed(subs, display, resolved, ds, ds.len())
    }
}

/// Whether line `l` renders group `g`.
pub open spec fn line_matches(l: GroupLine, g: GroupSpec) -> bool {
    &&& l.category_id == g.key
    &&& opt_string_view(l.category_name) == g.name
    &&& l.category_kind == g.kind
    &&& l.category_deleted == g.deleted
    &&& l.converted_net == g.net
    &&& l.complete == g.complete
    &&& l.currencies@.map_values(|p: CurrencyPart| part_view(p)) == g.parts
}

/// Whether the lines `ls` render the groups `gs`, in order.
pub open spec fn lines_match(ls: Seq<GroupLine>, gs: Seq<GroupSpec>) -> bool {
    &&& ls.len() == gs.len()
    &&& forall|i: int| 0 <= i < ls.len() ==> line_matches(#[trigger] ls[i], gs[i])
}

/// Whether two group keys are equal.
fn same_key(a: Option<u128>, b: Option<u128>) -> (r: bool)
    ensures
        r == (a == b),
{
    match (a, b) {
        (None, None) => true,
        (Some(x), Some(y)) => x == y,
        _ => false,
    }
}

/// A copy of an optional string.
pub fn clone_opt_string(s: &Option<String>) -> (r: Option<String>)
    ensures
        opt_string_view(r) == opt_string_view(*s),
{
    match s {
        None => None,
        Some(v) => Some(v.clone()),
    }
}

/// A copy of a currency part.
fn clone_part(p: &CurrencyPart) -> (r: CurrencyPart)
    ensures
        part_view(r) == part_view(*p),
{
    CurrencyPart {
        currency_code: p.currency_code.clone(),
        amount: p.amount.dup(),
        converted_amount: dup_opt(&p.converted_amount),
        rate: dup_opt(&p.rate),
    }
}

/// Value every subtotal into a currency part.
fn value_parts(
    subs: &Vec<CategorySubtotal>,
    display: &DisplayCurrency,
    resolved: &HashMap<u128, ResolvedRate>,
) -> (r: Result<(Vec<CurrencyPart>, bool), IncomeExpenseError>)
    ensures
        r is Ok <==> parts_ok(subs@, *display, resolved@),
        r matches Ok(x) ==> {
            &&& x.0@.len() == subs@.len()
            &&& forall|i: int|
                0 <= i < subs@.len() ==> part_spec(subs@[i], *display, resolved@) == Some(
                    part_view(#[trigger] x.0@[i]),
                )
            &&& x.1 == complete_spec(subs@, *display, resolved@)
        },
        r matches Err(e) ==> e == IncomeExpenseError::Internal,
{
    let mut parts: Vec<CurrencyPart> = Vec::new();
    let mut complete = true;
    let mut i: usize = 0;
    while i < subs.len()
        invariant
            i <= subs.len(),
            parts@.len() == i,
            forall|j: int|
                0 <= j < i ==> part_spec(subs@[j], *display, resolved@) == Some(
                    part_view(#[trigger] parts@[j]),
                ),
            complete == (forall|j: int|
                0 <= j < i ==> ((#[trigger] part_spec(subs@[j], *display, resolved@))->0).2 is Some),
        decreases subs.len() - i,
    {
        let s = &subs[i];
        let part = if s.asset_id == display.asset_id {
            CurrencyPart {
                currency_code: s.currency_code.clone(),
                amount: s.subtotal.dup(),
                converted_amount: Some(s.subtotal.dup()),
                rate: None,
            }
        } else {
            match lookup_rate(resolved, s.asset_id) {
                Some(rate) => match convert(
                    &s.subtotal,
                    rate.rate.dup(),
                    s.asset_id,
                    display.asset_id,
                    rate.valuation_timestamp,
                    display.minor_units,
                    INCOME_EXPENSE_ROUNDING,
                ) {
                    Ok(c) => CurrencyPart {
                        currency_code: s.currency_code.clone(),
                        amount: s.subtotal.dup(),
                        converted_amount: Some(c.converted_amount),
                        rate: Some(rate.rate),
                    },
                    Err(_) => {
                        assert(part_spec(subs@[i as int], *display, resolved@) is None);
                        return Err(IncomeExpenseError::Internal);
                    },
                },
                None => {
                    complete = false;
                    CurrencyPart {
                        currency_code: s.currency_code.clone(),
                        amount: s.subtotal.dup(),
                        converted_amount: None,
                        rate: None,
                    }
                },
            }
        };
        parts.push(part);
        i = i + 1;
    }
    assert forall|j: int| 0 <= j < subs@.len() implies (#[trigger] part_spec(
        subs@[j],
        *display,
        resolved@,
    )) is Some by {
        assert(part_spec(subs@[j], *display, resolved@) == Some(part_view(parts@[j])));
    }
    Ok((parts, complete))
}

proof fn lemma_distinct_bounds(subs: Seq<CategorySubtotal>, n: nat)
    requires
        n <= subs.len(),
    ensures
        forall|j: int|
            0 <= j < distinct_prefix(subs, n).len() ==> 0 <= (#[trigger] distinct_prefix(
                subs,
                n,
            )[j]).1 < n,
    decreases n,
{
    if n > 0 {
        lemma_distinct_bounds(subs, (n - 1) as nat);
        let acc = distinct_prefix(subs, (n - 1) as nat);
        if !has_key(acc, subs[n - 1].category_id) {
            let d = acc.push((subs[n - 1].category_id, n - 1));
            assert(distinct_prefix(subs, n) == d);
            assert forall|j: int| 0 <= j < d.len() implies 0 <= (#[trigger] d[j]).1 < n by {
                if j < acc.len() {
                    assert(d[j] == acc[j]);
                }
            }
        }
    }
}

/// The distinct category keys in first-mention order, each with the index
/// of its first subtotal.
fn distinct_keys(subs: &Vec<CategorySubtotal>) -> (r: Vec<(Option<u128>, usize)>)
    ensures
        r@.map_values(|x: (Option<u128>, usize)| (x.0, x.1 as int)) == distinct_prefix(
            subs@,
            subs@.len(),
        ),
{
    let mut keys: Vec<(Option<u128>, usize)> = Vec::new();
    let mut i: usize = 0;
    assert(keys@.map_values(|x: (Option<u128>, usize)| (x.0, x.1 as int)) =~= Seq::empty());
    while i < subs.len()
        invariant
            i <= subs.len(),
            keys@.map_values(|x: (Option<u128>, usize)| (x.0, x.1 as int)) == distinct_prefix(
                subs@,
                i as nat,
            ),
        decreases subs.len() - i,
    {
        let k = subs[i].category_id;
        let ghost acc = distinct_prefix(subs@, i as nat);
        let mut j: usize = 0;
        let mut found = false;
        while j < keys.len()
            invariant
                j <= keys.len(),
                acc == keys@.map_values(|x: (Option<u128>, usize)| (x.0, x.1 as int)),
                found == (exists|m: int| 0 <= m < j && acc[m].0 == k),
            decreases keys.len() - j,
        {
            if same_key(keys[j].0, k) {
                found = true;
            }
            proof {
                assert(acc[j as int] == (keys@[j as int].0, keys@[j as int].1 as int));
            }
            j = j + 1;
        }
        assert(found == has_key(acc, k));
        if !found {
            keys.push((k, i));
            assert(keys@.map_values(|x: (Option<u128>, usize)| (x.0, x.1 as int)) =~= acc.push(
                (k, i as int),
            ));
        }
        i = i + 1;
    }
    keys
}

/// The side a group lands on.
fn side_of(converted_net: &Option<Decimal>, currencies: &Vec<CurrencyPart>) -> (s: Side)
    ensures
        s == side_spec(*converted_net, currencies@.map_values(|p: CurrencyPart| part_view(p))),
{
    let ghost ps = currencies@.map_values(|p: CurrencyPart| part_view(p));
    if let Some(net) = converted_net {
        if net.is_positive() {
            return Side::Income;
        }
        if net.is_negative() {
            return Side::Expense;
        }
        let mut fully_valued = true;
        let mut i: usize = 0;
        while i < currencies.len()
            invariant
                i <= currencies.len(),
                ps == currencies@.map_values(|p: CurrencyPart| part_view(p)),
                fully_valued == (forall|j: int| 0 <= j < i ==> (#[trigger] ps[j]).2 is Some),
            decreases currencies.len() - i,
        {
            assert(ps[i as int] == part_view(currencies@[i as int]));
            if currencies[i].converted_amount.is_none() {
                fully_valued = false;
            }
            i = i + 1;
        }
        if fully_valued {
            return Side::Omit;
        }
    }
    if currencies.len() == 1 {
        if currencies[0].amount.is_positive() {
            Side::Income
        } else if currencies[0].amount.is_negative() {
            Side::Expense
        } else {
            Side::Omit
        }
    } else {
        Side::Unvalued
    }
}

proof fn lemma_net_none_sticks(ps: Seq<(Seq<char>, Decimal, Option<Decimal>, Option<Decimal>)>, i: nat, n: nat)
    requires
        i <= n,
        net_prefix(ps, i) is None,
    ensures
        net_prefix(ps, n) is None,
    decreases n - i,
{
    if i < n {
        lemma_net_none_sticks(ps, i + 1, n);
    }
}

/// The line for the group with key `key` whose first subtotal is `first`,
/// and the side it lands on; `None` when its net leaves the range.
fn group_line(
    subs: &Vec<CategorySubtotal>,
    parts: &Vec<CurrencyPart>,
    display: &DisplayCurrency,
    resolved: &HashMap<u128, ResolvedRate>,
    key: Option<u128>,
    first: usize,
) -> (r: Option<(GroupLine, Side)>)
    requires
        first < subs@.len(),
        parts@.len() == subs@.len(),
        forall|i: int|
            0 <= i < subs@.len() ==> part_spec(subs@[i], *display, resolved@) == Some(
                part_view(#[trigger] parts@[i]),
            ),
    ensures
        r is Some <==> group_spec(subs@, *display, resolved@, (key, first as int)) is Some,
        r matches Some(x) ==> {
            let g = group_spec(subs@, *display, resolved@, (key, first as int))->0;
            line_matches(x.0, g) && x.1 == g.side
        },
{
    let mut currencies: Vec<CurrencyPart> = Vec::new();
    let mut i: usize = 0;
    assert(currencies@.map_values(|p: CurrencyPart| part_view(p)) =~= Seq::empty());
    while i < parts.len()
        invariant
            i <= parts.len() == subs@.len(),
            forall|j: int|
                0 <= j < subs@.len() ==> part_spec(subs@[j], *display, resolved@) == Some(
                    part_view(#[trigger] parts@[j]),
                ),
            currencies@.map_values(|p: CurrencyPart| part_view(p)) == select_parts(
                subs@,
                *display,
                resolved@,
                key,
                i as nat,
            ),
        decreases parts.len() - i,
    {
        if same_key(subs[i].category_id, key) {
            let ghost before = currencies@.map_values(|p: CurrencyPart| part_view(p));
            let c = clone_part(&parts[i]);
            currencies.push(c);
            assert(currencies@.map_values(|p: CurrencyPart| part_view(p)) =~= before.push(
                part_view(c),
            ));
        }
        i = i + 1;
    }
    let ghost ps = currencies@.map_values(|p: CurrencyPart| part_view(p));
    assert(ps == select_parts(subs@, *display, resolved@, key, subs@.len()));
    assert(ps.len() == currencies@.len());
    let mut any = false;
    let mut sum = Decimal::zero();
    let mut k: usize = 0;
    while k < currencies.len()
        invariant
            k <= currencies.len(),
            ps == currencies@.map_values(|p: CurrencyPart| part_view(p)),
            ps == select_parts(subs@, *display, resolved@, key, subs@.len()),
            net_prefix(ps, k as nat) == Some((any, sum)),
        decreases currencies.len() - k,
    {
        assert(ps[k as int] == part_view(currencies@[k as int]));
        if let Some(c) = &currencies[k].converted_amount {
            match sum.checked_add(c) {
                Some(t) => {
                    sum = t;
                    any = true;
                },
                None => {
                    proof {
                        assert(ps[k as int].2 == Some(*c));
                        assert(net_prefix(ps, (k + 1) as nat) is None);
                        lemma_net_none_sticks(ps, (k + 1) as nat, ps.len());
                    }
                    return None;
                },
            }
        }
        k = k + 1;
    }
    let converted_net = if any {
        Some(sum)
    } else {
        None
    };
    let mut complete = true;
    let mut m: usize = 0;
    while m < currencies.len()
        invariant
            m <= currencies.len(),
            ps == currencies@.map_values(|p: CurrencyPart| part_view(p)),
            complete == (forall|j: int| 0 <= j < m ==> (#[trigger] ps[j]).2 is Some),
        decreases currencies.len() - m,
    {
        assert(ps[m as int] == part_view(currencies@[m as int]));
        if currencies[m].converted_amount.is_none() {
            complete = false;
        }
        m = m + 1;
    }
    let side = side_of(&converted_net, &currencies);
    let s = &subs[first];
    let line = GroupLine {
        category_id: key,
        category_name: clone_opt_string(&s.category_name),
        category_kind: s.kind,
        category_deleted: s.category_deleted,
        converted_net,
        complete,
        currencies,
    };
    Some((line, side))
}

proof fn lemma_placed_none_sticks(
    subs: Seq<CategorySubtotal>,
    display: DisplayCurrency,
    resolved: Map<u128, ResolvedRate>,
    ds: Seq<(Option<u128>, int)>,
    i: nat,
    n: nat,
)
    requires
        i <= n,
        placed(subs, display, resolved, ds, i) is None,
    ensures
        placed(subs, display, resolved, ds, n) is None,
    decreases n - i,
{
    if i < n {
        lemma_placed_none_sticks(subs, display, resolved, ds, i + 1, n);
    }
}

/// The sum, in order and from zero, of the nets of the valued groups in
/// `gs` (an unvalued group contributes nothing).
pub open spec fn nets_sum(gs: Seq<GroupSpec>) -> Option<Decimal>
    decreases gs.len(),
{
    if gs.len() == 0 {
        Some(dec(0, 0))
    } else {
        match nets_sum(gs.drop_last()) {
            None => None,
            Some(a) => match gs.last().net {
                None => Some(a),
                Some(v) => add_spec(a, v),
            },
        }
    }
}

/// Why a group is on the income side: a positive net, or, with nothing
/// valued, a single currency whose native amount is positive.
pub open spec fn income_placed(g: GroupSpec) -> bool {
    ||| (g.net matches Some(n) && n.m() > 0)
    ||| (g.net is None && g.parts.len() == 1 && g.parts[0].1.m() > 0)
}

/// Why a group is on the expense side: a negative net, or, with nothing
/// valued, a single currency whose native amount is negative.
pub open spec fn expense_placed(g: GroupSpec) -> bool {
    ||| (g.net matches Some(n) && n.m() < 0)
    ||| (g.net is None && g.parts.len() == 1 && g.parts[0].1.m() < 0)
}

/// Why a group is unvalued: several currencies, not all valued, and no
/// non-zero net to take a sign from.
pub open spec fn unvalued_placed(g: GroupSpec) -> bool {
    &&& g.parts.len() >= 2
    &&& !g.complete
    &&& (g.net is None || g.net->0.m() == 0)
}

proof fn lemma_net_any(ps: Seq<(Seq<char>, Decimal, Option<Decimal>, Option<Decimal>)>, n: nat)
    requires
        n <= ps.len(),
        net_prefix(ps, n) is Some,
    ensures
        (net_prefix(ps, n)->0).0 <==> exists|i: int| 0 <= i < n && (#[trigger] ps[i]).2 is Some,
    decreases n,
{
    if n > 0 {
        lemma_net_any(ps, (n - 1) as nat);
        if ps[n - 1].2 is Some {
            assert(ps[n - 1 as int].2 is Some);
        }
    }
}

proof fn lemma_distinct_first(subs: Seq<CategorySubtotal>, n: nat)
    requires
        n <= subs.len(),
    ensures
        forall|j: int|
            0 <= j < distinct_prefix(subs, n).len() ==> 0 <= (#[trigger] distinct_prefix(subs, n)[j]).1
                < n && subs[distinct_prefix(subs, n)[j].1].category_id == distinct_prefix(subs, n)[j].0,
    decreases n,
{
    if n > 0 {
        lemma_distinct_first(subs, (n - 1) as nat);
        let acc = distinct_prefix(subs, (n - 1) as nat);
        if !has_key(acc, subs[n - 1].category_id) {
            let d = acc.push((subs[n - 1].category_id, n - 1));
            assert forall|j: int| 0 <= j < d.len() implies 0 <= (#[trigger] d[j]).1 < n
                && subs[d[j].1].category_id == d[j].0 by {
                if j < acc.len() {
                    assert(d[j] == acc[j]);
                }
            }
        }
    }
}

proof fn lemma_select_nonempty(
    subs: Seq<CategorySubtotal>,
    display: DisplayCurrency,
    resolved: Map<u128, ResolvedRate>,
    k: Option<u128>,
    i: nat,
    n: nat,
)
    requires
        i < n,
        subs[i as int].category_id == k,
    ensures
        select_parts(subs, display, resolved, k, n).len() >= 1,
    decreases n,
{
    if n - 1 > i {
        lemma_select_nonempty(subs, display, resolved, k, i, (n - 1) as nat);
    }
}

/// Why a group is left out of every list: every part valued and a net of
/// exactly zero, or a single unvalued currency whose native amount is zero.
pub open spec fn omitted(g: GroupSpec) -> bool {
    ||| (g.complete && (g.net matches Some(n) && n.m() == 0))
    ||| (g.net is None && g.parts.len() == 1 && g.parts[0].1.m() == 0)
}

/// Where a group first mentioned by subtotal `d.1` is placed: on the income
/// side with a positive net (or a single positive currency, nothing
/// valued), on the expense side likewise with negative, left out when
/// fully valued with a zero net (or a single zero currency, nothing
/// valued), and unvalued otherwise (several currencies, not all valued, no
/// non-zero net).
pub proof fn lemma_group_side(
    subs: Seq<CategorySubtotal>,
    display: DisplayCurrency,
    resolved: Map<u128, ResolvedRate>,
    d: (Option<u128>, int),
)
    requires
        0 <= d.1 < subs.len(),
        subs[d.1].category_id == d.0,
        group_spec(subs, display, resolved, d) is Some,
    ensures
        ({
            let g = group_spec(subs, display, resolved, d)->0;
            &&& g.side == Side::Income ==> income_placed(g)
            &&& g.side == Side::Expense ==> expense_placed(g)
            &&& g.side == Side::Unvalued ==> unvalued_placed(g)
            &&& g.side == Side::Omit ==> omitted(g)
        }),
{
    let ps = select_parts(subs, display, resolved, d.0, subs.len());
    lemma_select_nonempty(subs, display, resolved, d.0, d.1 as nat, subs.len());
    lemma_net_any(ps, ps.len());
    let g = group_spec(subs, display, resolved, d)->0;
    if g.net is Some && ps.len() == 1 {
        assert(ps[0].2 is Some);
        assert(all_valued(ps));
    }
    if g.net is None {
        assert(!(ps[0].2 is Some));
        assert(!all_valued(ps));
    }
}

proof fn lemma_placed_laws(
    subs: Seq<CategorySubtotal>,
    display: DisplayCurrency,
    resolved: Map<u128, ResolvedRate>,
    ds: Seq<(Option<u128>, int)>,
    n: nat,
)
    requires
        n <= ds.len(),
        forall|j: int|
            0 <= j < ds.len() ==> 0 <= (#[trigger] ds[j]).1 < subs.len() && subs[ds[j].1].category_id
                == ds[j].0,
        placed(subs, display, resolved, ds, n) is Some,
    ensures
        ({
            let p = placed(subs, display, resolved, ds, n)->0;
            &&& nets_sum(p.income) == Some(p.total_income)
            &&& nets_sum(p.expense) == Some(p.total_expense)
            &&& p.total_income.m() >= 0
            &&& p.total_expense.m() <= 0
            &&& forall|i: int| 0 <= i < p.income.len() ==> income_placed(#[trigger] p.income[i])
            &&& forall|i: int| 0 <= i < p.expense.len() ==> expense_placed(#[trigger] p.expense[i])
            &&& forall|i: int| 0 <= i < p.unvalued.len() ==> unvalued_placed(#[trigger] p.unvalued[i])
        }),
    decreases n,
{
    if n > 0 {
        if placed(subs, display, resolved, ds, (n - 1) as nat) is None {
            lemma_placed_none_sticks(subs, display, resolved, ds, (n - 1) as nat, n);
        }
        lemma_placed_laws(subs, display, resolved, ds, (n - 1) as nat);
        let q = placed(subs, display, resolved, ds, (n - 1) as nat)->0;
        let p = placed(subs, display, resolved, ds, n)->0;
        let g = group_spec(subs, display, resolved, ds[n - 1])->0;
        assert(ds[n - 1 as int].1 < subs.len());
        lemma_group_side(subs, display, resolved, ds[n - 1]);
        assert(q.income.push(g).drop_last() =~= q.income);
        assert(q.expense.push(g).drop_last() =~= q.expense);
        match g.side {
            Side::Income => {
                if let Some(v) = g.net {
                    lemma_add_keeps_sign(q.total_income, v);
                }
                assert forall|i: int| 0 <= i < p.income.len() implies income_placed(
                    #[trigger] p.income[i],
                ) by {
                    if i < q.income.len() {
                        assert(p.income[i] == q.income[i]);
                    }
                }
            },
            Side::Expense => {
                if let Some(v) = g.net {
                    lemma_add_keeps_sign(q.total_expense, v);
                }
                assert forall|i: int| 0 <= i < p.expense.len() implies expense_placed(
                    #[trigger] p.expense[i],
                ) by {
                    if i < q.expense.len() {
                        assert(p.expense[i] == q.expense[i]);
                    }
                }
            },
            Side::Unvalued => {
                assert forall|i: int| 0 <= i < p.unvalued.len() implies unvalued_placed(
                    #[trigger] p.unvalued[i],
                ) by {
                    if i < q.unvalued.len() {
                        assert(p.unvalued[i] == q.unvalued[i]);
                    }
                }
            },
            Side::Omit => {},
        }
    }
}

/// What a successful report's placement promises: each side's total is the
/// in-order sum of that side's valued group nets (unvalued groups and parts
/// contribute nothing), total income is never negative and total expense
/// never positive; an income group has a positive net or, with nothing
/// valued, a single positive currency (and likewise for expense); an
/// unvalued group spans several currencies, is incomplete, and has no
/// non-zero net.
pub proof fn lemma_summary_totals_and_sides(
    subs: Seq<CategorySubtotal>,
    display: DisplayCurrency,
    resolved: Map<u128, ResolvedRate>,
)
    requires
        summary_placement(subs, display, resolved) is Some,
    ensures
        ({
            let p = summary_placement(subs, display, resolved)->0;
            &&& nets_sum(p.income) == Some(p.total_income)
            &&& nets_sum(p.expense) == Some(p.total_expense)
            &&& p.total_income.m() >= 0
            &&& p.total_expense.m() <= 0
            &&& forall|i: int| 0 <= i < p.income.len() ==> income_placed(#[trigger] p.income[i])
            &&& forall|i: int| 0 <= i < p.expense.len() ==> expense_placed(#[trigger] p.expense[i])
            &&& forall|i: int| 0 <= i < p.unvalued.len() ==> unvalued_placed(#[trigger] p.unvalued[i])
        }),
{
    let ds = distinct_prefix(subs, subs.len());
    lemma_distinct_first(subs, subs.len());
    lemma_placed_laws(subs, display, resolved, ds, ds.len());
}

/// Whether `k` is the key of one of the first `n` entries of `ds`.
pub open spec fn key_among(ds: Seq<(Option<u128>, int)>, n: nat, k: Option<u128>) -> bool {
    exists|j: int| 0 <= j < n && (#[trigger] ds[j]).0 == k
}

/// Whether the groups in `gs` have pairwise distinct keys.
pub open spec fn distinct_groups(gs: Seq<GroupSpec>) -> bool {
    forall|i: int, j: int| 0 <= i < j < gs.len() ==> (#[trigger] gs[i]).key != (#[trigger] gs[j]).key
}

/// Whether no group of `a` shares its key with a group of `b`.
pub open spec fn disjoint_groups(a: Seq<GroupSpec>, b: Seq<GroupSpec>) -> bool {
    forall|i: int, j: int| 0 <= i < a.len() && 0 <= j < b.len() ==> (#[trigger] a[i]).key != (
    #[trigger] b[j]).key
}

/// Whether the groups of `gs` follow the order of their keys' first
/// mentions among the first `n` entries of `ds`.
pub open spec fn in_mention_order(gs: Seq<GroupSpec>, ds: Seq<(Option<u128>, int)>, n: nat) -> bool {
    forall|i: int, j: int|
        0 <= i < j < gs.len() ==> exists|a: int, b: int|
            0 <= a < b < n && (#[trigger] ds[a]).0 == (#[trigger] gs[i]).key && (#[trigger] ds[b]).0
                == (#[trigger] gs[j]).key
}

proof fn lemma_order_push(gs: Seq<GroupSpec>, g: GroupSpec, ds: Seq<(Option<u128>, int)>, n: nat)
    requires
        n >= 1,
        n <= ds.len(),
        in_mention_order(gs, ds, (n - 1) as nat),
        forall|i: int| 0 <= i < gs.len() ==> key_among(ds, (n - 1) as nat, (#[trigger] gs[i]).key),
        g.key == ds[n - 1].0,
    ensures
        in_mention_order(gs.push(g), ds, n),
{
    let r = gs.push(g);
    assert forall|i: int, j: int| 0 <= i < j < r.len() implies exists|a: int, b: int|
        0 <= a < b < n && (#[trigger] ds[a]).0 == (#[trigger] r[i]).key && (#[trigger] ds[b]).0
            == (#[trigger] r[j]).key by {
        assert(r[i] == gs[i]);
        if j < gs.len() {
            assert(r[j] == gs[j]);
            let (a, b) = choose|a: int, b: int|
                0 <= a < b < n - 1 && (#[trigger] ds[a]).0 == (#[trigger] gs[i]).key && (
                #[trigger] ds[b]).0 == (#[trigger] gs[j]).key;
            assert(0 <= a < b < n && ds[a].0 == r[i].key && ds[b].0 == r[j].key);
        } else {
            assert(key_among(ds, (n - 1) as nat, gs[i].key));
            let a = choose|a: int| 0 <= a < n - 1 && (#[trigger] ds[a]).0 == gs[i].key;
            let b = n - 1;
            assert(0 <= a < b < n && ds[a].0 == r[i].key && ds[b].0 == r[j].key);
        }
    }
}

proof fn lemma_order_widen(gs: Seq<GroupSpec>, ds: Seq<(Option<u128>, int)>, n: nat)
    requires
        n >= 1,
        in_mention_order(gs, ds, (n - 1) as nat),
    ensures
        in_mention_order(gs, ds, n),
{
    assert forall|i: int, j: int| 0 <= i < j < gs.len() implies exists|a: int, b: int|
        0 <= a < b < n && (#[trigger] ds[a]).0 == (#[trigger] gs[i]).key && (#[trigger] ds[b]).0
            == (#[trigger] gs[j]).key by {
        let (a, b) = choose|a: int, b: int|
            0 <= a < b < n - 1 && (#[trigger] ds[a]).0 == (#[trigger] gs[i]).key && (#[trigger] ds[b]).0
                == (#[trigger] gs[j]).key;
        assert(0 <= a < b < n && ds[a].0 == gs[i].key && ds[b].0 == gs[j].key);
    }
}

proof fn lemma_distinct_keys(subs: Seq<CategorySubtotal>, n: nat)
    requires
        n <= subs.len(),
    ensures
        forall|i: int, j: int|
            0 <= i < j < distinct_prefix(subs, n).len() ==> (#[trigger] distinct_prefix(subs, n)[i]).0
                != (#[trigger] distinct_prefix(subs, n)[j]).0,
    decreases n,
{
    if n > 0 {
        lemma_distinct_keys(subs, (n - 1) as nat);
        let acc = distinct_prefix(subs, (n - 1) as nat);
        let k = subs[n - 1].category_id;
        if !has_key(acc, k) {
            let d = acc.push((k, n - 1));
            assert forall|i: int, j: int| 0 <= i < j < d.len() implies (#[trigger] d[i]).0 != (
            #[trigger] d[j]).0 by {
                assert(d[i] == acc[i]);
                if j == acc.len() {
                    if acc[i].0 == k {
                        assert(has_key(acc, k));
                    }
                } else {
                    assert(d[j] == acc[j]);
                }
            }
        }
    }
}

proof fn lemma_placed_distinct(
    subs: Seq<CategorySubtotal>,
    display: DisplayCurrency,
    resolved: Map<u128, ResolvedRate>,
    ds: Seq<(Option<u128>, int)>,
    n: nat,
)
    requires
        n <= ds.len(),
        forall|i: int, j: int| 0 <= i < j < ds.len() ==> (#[trigger] ds[i]).0 != (#[trigger] ds[j]).0,
        placed(subs, display, resolved, ds, n) is Some,
    ensures
        ({
            let p = placed(subs, display, resolved, ds, n)->0;
            &&& distinct_groups(p.income)
            &&& distinct_groups(p.expense)
            &&& distinct_groups(p.unvalued)
            &&& disjoint_groups(p.income, p.expense)
            &&& disjoint_groups(p.income, p.unvalued)
            &&& disjoint_groups(p.expense, p.unvalued)
            &&& in_mention_order(p.income, ds, n)
            &&& in_mention_order(p.expense, ds, n)
            &&& in_mention_order(p.unvalued, ds, n)
            &&& forall|i: int| 0 <= i < p.income.len() ==> key_among(ds, n, (#[trigger] p.income[i]).key)
            &&& forall|i: int| 0 <= i < p.expense.len() ==> key_among(ds, n, (#[trigger] p.expense[i]).key)
            &&& forall|i: int|
                0 <= i < p.unvalued.len() ==> key_among(ds, n, (#[trigger] p.unvalued[i]).key)
        }),
    decreases n,
{
    if n > 0 {
        if placed(subs, display, resolved, ds, (n - 1) as nat) is None {
            lemma_placed_none_sticks(subs, display, resolved, ds, (n - 1) as nat, n);
        }
        lemma_placed_distinct(subs, display, resolved, ds, (n - 1) as nat);
        let q = placed(subs, display, resolved, ds, (n - 1) as nat)->0;
        let p = placed(subs, display, resolved, ds, n)->0;
        let g = group_spec(subs, display, resolved, ds[n - 1])->0;
        let k = ds[n - 1].0;
        assert(g.key == k);
        assert forall|x: Option<u128>| #[trigger] key_among(ds, (n - 1) as nat, x) implies x != k by {
            let j = choose|j: int| 0 <= j < n - 1 && (#[trigger] ds[j]).0 == x;
            assert(ds[j].0 != ds[n - 1].0);
        }
        assert forall|x: Option<u128>| #[trigger] key_among(ds, (n - 1) as nat, x) implies key_among(
            ds,
            n,
            x,
        ) by {
            let j = choose|j: int| 0 <= j < n - 1 && (#[trigger] ds[j]).0 == x;
            assert(0 <= j < n && ds[j].0 == x);
        }
        assert(key_among(ds, n, k)) by {
            assert(ds[n - 1].0 == k);
        }
        assert forall|i: int| 0 <= i < q.income.len() implies (#[trigger] q.income[i]).key != k by {
            assert(key_among(ds, (n - 1) as nat, q.income[i].key));
        }
        assert forall|i: int| 0 <= i < q.expense.len() implies (#[trigger] q.expense[i]).key != k by {
            assert(key_among(ds, (n - 1) as nat, q.expense[i].key));
        }
        assert forall|i: int| 0 <= i < q.unvalued.len() implies (#[trigger] q.unvalued[i]).key
            != k by {
            assert(key_among(ds, (n - 1) as nat, q.unvalued[i].key));
        }
        assert forall|i: int| 0 <= i < q.income.len() implies key_among(
            ds,
            n,
            (#[trigger] q.income[i]).key,
        ) by {
            assert(key_among(ds, (n - 1) as nat, q.income[i].key));
        }
        assert forall|i: int| 0 <= i < q.expense.len() implies key_among(
            ds,
            n,
            (#[trigger] q.expense[i]).key,
        ) by {
            assert(key_among(ds, (n - 1) as nat, q.expense[i].key));
        }
        assert forall|i: int| 0 <= i < q.unvalued.len() implies key_among(
            ds,
            n,
            (#[trigger] q.unvalued[i]).key,
        ) by {
            assert(key_among(ds, (n - 1) as nat, q.unvalued[i].key));
        }
        lemma_order_widen(q.income, ds, n);
        lemma_order_widen(q.expense, ds, n);
        lemma_order_widen(q.unvalued, ds, n);
        lemma_order_push(q.income, g, ds, n);
        lemma_order_push(q.expense, g, ds, n);
        lemma_order_push(q.unvalued, g, ds, n);
    }
}

/// The groups of a successful report have pairwise distinct keys, within
/// each side and across the three sides, and each side lists its groups in
/// the order the subtotals first mention them.
pub proof fn lemma_summary_groups_distinct(
    subs: Seq<CategorySubtotal>,
    display: DisplayCurrency,
    resolved: Map<u128, ResolvedRate>,
)
    requires
        summary_placement(subs, display, resolved) is Some,
    ensures
        ({
            let p = summary_placement(subs, display, resolved)->0;
            &&& distinct_groups(p.income)
            &&& distinct_groups(p.expense)
            &&& distinct_groups(p.unvalued)
            &&& disjoint_groups(p.income, p.expense)
            &&& disjoint_groups(p.income, p.unvalued)
            &&& disjoint_groups(p.expense, p.unvalued)
            &&& in_mention_order(
                p.income,
                distinct_prefix(subs, subs.len()),
                distinct_prefix(subs, subs.len()).len(),
            )
            &&& in_mention_order(
                p.expense,
                distinct_prefix(subs, subs.len()),
                distinct_prefix(subs, subs.len()).len(),
            )
            &&& in_mention_order(
                p.unvalued,
                distinct_prefix(subs, subs.len()),
                distinct_prefix(subs, subs.len()).len(),
            )
        }),
{
    let ds = distinct_prefix(subs, subs.len());
    lemma_distinct_keys(subs, subs.len());
    lemma_placed_distinct(subs, display, resolved, ds, ds.len());
}

/// Whether a group keyed `k` is on any of the placement's three lists.
pub open spec fn listed(p: Placement, k: Option<u128>) -> bool {
    ||| exists|i: int| 0 <= i < p.income.len() && (#[trigger] p.income[i]).key == k
    ||| exists|i: int| 0 <= i < p.expense.len() && (#[trigger] p.expense[i]).key == k
    ||| exists|i: int| 0 <= i < p.unvalued.len() && (#[trigger] p.unvalued[i]).key == k
}

#[verifier::rlimit(100)]
#[verifier::spinoff_prover]
proof fn lemma_placed_membership(
    subs: Seq<CategorySubtotal>,
    display: DisplayCurrency,
    resolved: Map<u128, ResolvedRate>,
    ds: Seq<(Option<u128>, int)>,
    n: nat,
)
    requires
        n <= ds.len(),
        forall|i: int, j: int| 0 <= i < j < ds.len() ==> (#[trigger] ds[i]).0 != (#[trigger] ds[j]).0,
        placed(subs, display, resolved, ds, n) is Some,
    ensures
        forall|j: int|
            0 <= j < n ==> (#[trigger] group_spec(subs, display, resolved, ds[j])) is Some,
        forall|j: int|
            0 <= j < n ==> (listed(placed(subs, display, resolved, ds, n)->0, ds[j].0) <==> (
            #[trigger] group_spec(subs, display, resolved, ds[j]))->0.side != Side::Omit),
    decreases n,
{
    if n > 0 {
        if placed(subs, display, resolved, ds, (n - 1) as nat) is None {
            lemma_placed_none_sticks(subs, display, resolved, ds, (n - 1) as nat, n);
        }
        lemma_placed_membership(subs, display, resolved, ds, (n - 1) as nat);
        lemma_placed_distinct(subs, display, resolved, ds, (n - 1) as nat);
        let q = placed(subs, display, resolved, ds, (n - 1) as nat)->0;
        let p = placed(subs, display, resolved, ds, n)->0;
        let g = group_spec(subs, display, resolved, ds[n - 1])->0;
        let k = g.key;
        assert(k == ds[n - 1].0);
        assert forall|j: int| 0 <= j < n implies (#[trigger] group_spec(
            subs,
            display,
            resolved,
            ds[j],
        )) is Some by {}
        assert(p.income.len() >= q.income.len() && p.expense.len() >= q.expense.len()
            && p.unvalued.len() >= q.unvalued.len());
        assert forall|i: int| 0 <= i < q.income.len() implies p.income[i] == #[trigger] q.income[i] by {}
        assert forall|i: int| 0 <= i < q.expense.len() implies p.expense[i] == #[trigger] q.expense[i] by {}
        assert forall|i: int| 0 <= i < q.unvalued.len() implies p.unvalued[i]
            == #[trigger] q.unvalued[i] by {}
        // Keys already listed differ from the new group's key.
        assert forall|i: int| 0 <= i < q.income.len() implies (#[trigger] q.income[i]).key != k by {
            assert(key_among(ds, (n - 1) as nat, q.income[i].key));
            let w = choose|w: int| 0 <= w < n - 1 && (#[trigger] ds[w]).0 == q.income[i].key;
            assert(ds[w].0 != ds[n - 1].0);
        }
        assert forall|i: int| 0 <= i < q.expense.len() implies (#[trigger] q.expense[i]).key != k by {
            assert(key_among(ds, (n - 1) as nat, q.expense[i].key));
            let w = choose|w: int| 0 <= w < n - 1 && (#[trigger] ds[w]).0 == q.expense[i].key;
            assert(ds[w].0 != ds[n - 1].0);
        }
        assert forall|i: int| 0 <= i < q.unvalued.len() implies (#[trigger] q.unvalued[i]).key
            != k by {
            assert(key_among(ds, (n - 1) as nat, q.unvalued[i].key));
            let w = choose|w: int| 0 <= w < n - 1 && (#[trigger] ds[w]).0 == q.unvalued[i].key;
            assert(ds[w].0 != ds[n - 1].0);
        }
        assert forall|j: int| 0 <= j < n implies (listed(p, ds[j].0) <==> (
        #[trigger] group_spec(subs, display, resolved, ds[j]))->0.side != Side::Omit) by {
            let kj = ds[j].0;
            if j < n - 1 {
                assert(kj != k);
                if listed(q, kj) {
                    if exists|i: int| 0 <= i < q.income.len() && (#[trigger] q.income[i]).key == kj {
                        let i = choose|i: int| 0 <= i < q.income.len() && (#[trigger] q.income[i]).key == kj;
                        assert(p.income[i].key == kj);
                    } else if exists|i: int| 0 <= i < q.expense.len() && (#[trigger] q.expense[i]).key == kj {
                        let i = choose|i: int| 0 <= i < q.expense.len() && (#[trigger] q.expense[i]).key == kj;
                        assert(p.expense[i].key == kj);
                    } else {
                        let i = choose|i: int| 0 <= i < q.unvalued.len() && (#[trigger] q.unvalued[i]).key == kj;
                        assert(p.unvalued[i].key == kj);
                    }
                }
                if listed(p, kj) {
                    if exists|i: int| 0 <= i < p.income.len() && (#[trigger] p.income[i]).key == kj {
                        let i = choose|i: int| 0 <= i < p.income.len() && (#[trigger] p.income[i]).key == kj;
                        if i < q.income.len() {
                            assert(q.income[i].key == kj);
                        }
                    } else if exists|i: int| 0 <= i < p.expense.len() && (#[trigger] p.expense[i]).key == kj {
                        let i = choose|i: int| 0 <= i < p.expense.len() && (#[trigger] p.expense[i]).key == kj;
                        if i < q.expense.len() {
                            assert(q.expense[i].key == kj);
                        }
                    } else {
                        let i = choose|i: int| 0 <= i < p.unvalued.len() && (#[trigger] p.unvalued[i]).key == kj;
                        if i < q.unvalued.len() {
                            assert(q.unvalued[i].key == kj);
                        }
                    }
                }
            } else {
                match g.side {
                    Side::Income => {
                        assert(p.income[q.income.len() as int].key == k);
                    },
                    Side::Expense => {
                        assert(p.expense[q.expense.len() as int].key == k);
                    },
                    Side::Unvalued => {
                        assert(p.unvalued[q.unvalued.len() as int].key == k);
                    },
                    Side::Omit => {
                        assert(p == q);
                        if exists|i: int| 0 <= i < p.income.len() && (#[trigger] p.income[i]).key == k {
                            let i = choose|i: int| 0 <= i < p.income.len() && (#[trigger] p.income[i]).key == k;
                            assert(q.income[i].key != k);
                        }
                        if exists|i: int| 0 <= i < p.expense.len() && (#[trigger] p.expense[i]).key == k {
                            let i = choose|i: int| 0 <= i < p.expense.len() && (#[trigger] p.expense[i]).key == k;
                            assert(q.expense[i].key != k);
                        }
                        if exists|i: int| 0 <= i < p.unvalued.len() && (#[trigger] p.unvalued[i]).key == k {
                            let i = choose|i: int| 0 <= i < p.unvalued.len() && (#[trigger] p.unvalued[i]).key == k;
                            assert(q.unvalued[i].key != k);
                        }
                    },
                }
            }
        }
    }
}

/// In a successful report, a group (keyed by a category the subtotals
/// mention) is absent from every list exactly when it is omitted-shaped:
/// fully valued with a net of exactly zero, or a single unvalued currency
/// whose native amount is zero.
pub proof fn lemma_summary_absent_iff_omitted(
    subs: Seq<CategorySubtotal>,
    display: DisplayCurrency,
    resolved: Map<u128, ResolvedRate>,
)
    requires
        summary_placement(subs, display, resolved) is Some,
    ensures
        forall|j: int|
            0 <= j < distinct_prefix(subs, subs.len()).len() ==> (#[trigger] group_spec(
                subs,
                display,
                resolved,
                distinct_prefix(subs, subs.len())[j],
            )) is Some && (!listed(
                summary_placement(subs, display, resolved)->0,
                distinct_prefix(subs, subs.len())[j].0,
            ) <==> omitted(group_spec(subs, display, resolved, distinct_prefix(subs, subs.len())[j])->0)),
{
    let ds = distinct_prefix(subs, subs.len());
    lemma_distinct_keys(subs, subs.len());
    lemma_distinct_first(subs, subs.len());
    lemma_placed_membership(subs, display, resolved, ds, ds.len());
    assert forall|j: int| 0 <= j < ds.len() implies (#[trigger] group_spec(
        subs,
        display,
        resolved,
        ds[j],
    )) is Some && (!listed(summary_placement(subs, display, resolved)->0, ds[j].0) <==> omitted(
        group_spec(subs, display, resolved, ds[j])->0,
    )) by {
        lemma_group_side(subs, display, resolved, ds[j]);
    }
}

/// A group's parts are exactly, in input order, the parts of the subtotals
/// that carry its key.
pub proof fn lemma_group_parts(
    subs: Seq<CategorySubtotal>,
    display: DisplayCurrency,
    resolved: Map<u128, ResolvedRate>,
    k: Option<u128>,
    n: nat,
)
    requires
        n <= subs.len(),
    ensures
        select_parts(subs, display, resolved, k, n) == subs.take(n as int).filter(
            |t: CategorySubtotal| t.category_id == k,
        ).map_values(|t: CategorySubtotal| part_spec(t, display, resolved)->0),
    decreases n,
{
    let pred = |t: CategorySubtotal| t.category_id == k;
    let f = |t: CategorySubtotal| part_spec(t, display, resolved)->0;
    reveal(Seq::filter);
    if n == 0 {
        assert(subs.take(0).filter(pred) =~= Seq::<CategorySubtotal>::empty());
        assert(subs.take(0).filter(pred).map_values(f) =~= Seq::empty());
    } else {
        lemma_group_parts(subs, display, resolved, k, (n - 1) as nat);
        let t = subs.take(n as int);
        assert(t.drop_last() =~= subs.take(n - 1));
        assert(t.last() == subs[n - 1]);
        let prev = subs.take(n - 1).filter(pred);
        if pred(subs[n - 1]) {
            assert(t.filter(pred) == prev.push(subs[n - 1]));
            assert(prev.push(subs[n - 1]).map_values(f) =~= prev.map_values(f).push(f(subs[n - 1])));
        } else {
            assert(t.filter(pred) == prev);
        }
    }
}

/// A report is complete exactly when every subtotal is either in the
/// display currency or has a resolved rate (given that every conversion
/// was accepted, as in any successful report).
pub proof fn lemma_summary_complete(
    subs: Seq<CategorySubtotal>,
    display: DisplayCurrency,
    resolved: Map<u128, ResolvedRate>,
)
    requires
        parts_ok(subs, display, resolved),
    ensures
        complete_spec(subs, display, resolved) <==> forall|i: int|
            0 <= i < subs.len() ==> (#[trigger] subs[i]).asset_id == display.asset_id
                || resolved.contains_key(subs[i].asset_id),
{
    if complete_spec(subs, display, resolved) {
        assert forall|i: int| 0 <= i < subs.len() implies (#[trigger] subs[i]).asset_id
            == display.asset_id || resolved.contains_key(subs[i].asset_id) by {
            assert((part_spec(subs[i], display, resolved)->0).2 is Some);
        }
    }
    if forall|i: int|
        0 <= i < subs.len() ==> (#[trigger] subs[i]).asset_id == display.asset_id
            || resolved.contains_key(subs[i].asset_id) {
        assert forall|i: int| 0 <= i < subs.len() implies ((#[trigger] part_spec(
            subs[i],
            display,
            resolved,
        ))->0).2 is Some by {
            assert(part_spec(subs[i], display, resolved) is Some);
            assert(subs[i].asset_id == display.asset_id || resolved.contains_key(subs[i].asset_id));
        }
    }
}

/// Fold the per-`(category, currency)` subtotals into per-group lines,
/// value each part into `display` with the rates in `resolved`, roll the
/// parts into a group net, and place each group by the sign of that net.
/// A display-currency part contributes its exact value; any other valued
/// part is converted and rounded to the display currency's minor units with
/// banker's rounding; a part with no rate is left unvalued, clears
/// `complete`, and contributes to no net or total. Groups keep the order in
/// which `subtotals` first mentions them; `net` is income plus expense.
#[verifier::rlimit(50)]
#[verifier::spinoff_prover]
pub fn summarise(
    subtotals: &Vec<CategorySubtotal>,
    display: &DisplayCurrency,
    resolved: &HashMap<u128, ResolvedRate>,
) -> (r: Result<Summary, IncomeExpenseError>)
    ensures
        r is Ok <==> (summary_placement(subtotals@, *display, resolved@) matches Some(p)
            && add_spec(p.total_income, p.total_expense) is Some),
        r matches Ok(s) ==> {
            let p = summary_placement(subtotals@, *display, resolved@)->0;
            &&& lines_match(s.income_lines@, p.income)
            &&& lines_match(s.expense_lines@, p.expense)
            &&& lines_match(s.unvalued_lines@, p.unvalued)
            &&& s.total_income == p.total_income
            &&& s.total_expense == p.total_expense
            &&& add_spec(p.total_income, p.total_expense) == Some(s.net)
            &&& s.complete == complete_spec(subtotals@, *display, resolved@)
        },
        r matches Err(e) ==> e == IncomeExpenseError::Internal,
{
    let (parts, complete) = value_parts(subtotals, display, resolved)?;
    let keys = distinct_keys(subtotals);
    let ghost ds = distinct_prefix(subtotals@, subtotals@.len());
    assert(parts_ok(subtotals@, *display, resolved@));
    assert(ds.len() == keys@.len());
    proof {
        lemma_distinct_bounds(subtotals@, subtotals@.len());
    }
    let mut income_lines: Vec<GroupLine> = Vec::new();
    let mut expense_lines: Vec<GroupLine> = Vec::new();
    let mut unvalued_lines: Vec<GroupLine> = Vec::new();
    let mut total_income = Decimal::zero();
    let mut total_expense = Decimal::zero();
    let mut g: usize = 0;
    while g < keys.len()
        invariant
            g <= keys.len(),
            ds == keys@.map_values(|x: (Option<u128>, usize)| (x.0, x.1 as int)),
            ds == distinct_prefix(subtotals@, subtotals@.len()),
            forall|j: int| 0 <= j < ds.len() ==> 0 <= (#[trigger] ds[j]).1 < subtotals@.len(),
            parts@.len() == subtotals@.len(),
            forall|i: int|
                0 <= i < subtotals@.len() ==> part_spec(subtotals@[i], *display, resolved@)
                    == Some(part_view(#[trigger] parts@[i])),
            placed(subtotals@, *display, resolved@, ds, g as nat) matches Some(p) && {
                &&& lines_match(income_lines@, p.income)
                &&& lines_match(expense_lines@, p.expense)
                &&& lines_match(unvalued_lines@, p.unvalued)
                &&& total_income == p.total_income
                &&& total_expense == p.total_expense
            },
        decreases keys.len() - g,
    {
        let (key, first) = keys[g];
        proof {
            assert(ds[g as int] == (key, first as int));
        }
        let ghost p = placed(subtotals@, *display, resolved@, ds, g as nat)->0;
        match group_line(subtotals, &parts, display, resolved, key, first) {
            None => {
                proof {
                    lemma_placed_none_sticks(
                        subtotals@,
                        *display,
                        resolved@,
                        ds,
                        (g + 1) as nat,
                        ds.len(),
                    );
                }
                return Err(IncomeExpenseError::Internal);
            },
            Some((line, side)) => {
                let ghost gs = group_spec(subtotals@, *display, resolved@, ds[g as int])->0;
                match side {
                    Side::Income => {
                        if let Some(net) = &line.converted_net {
                            match total_income.checked_add(net) {
                                Some(t) => total_income = t,
                                None => {
                                    proof {
                                        lemma_placed_none_sticks(
                                            subtotals@,
                                            *display,
                                            resolved@,
                                            ds,
                                            (g + 1) as nat,
                                            ds.len(),
                                        );
                                    }
                                    return Err(IncomeExpenseError::Internal);
                                },
                            }
                        }
                        income_lines.push(line);
                        assert(income_lines@ =~= income_lines@.take(
                            income_lines@.len() - 1,
                        ).push(line));
                    },
                    Side::Expense => {
                        if let Some(net) = &line.converted_net {
                            match total_expense.checked_add(net) {
                                Some(t) => total_expense = t,
                                None => {
                                    proof {
                                        lemma_placed_none_sticks(
                                            subtotals@,
                                            *display,
                                            resolved@,
                                            ds,
                                            (g + 1) as nat,
                                            ds.len(),
                                        );
                                    }
                                    return Err(IncomeExpenseError::Internal);
                                },
                            }
                        }
                        expense_lines.push(line);
                    },
                    Side::Unvalued => {
                        unvalued_lines.push(line);
                    },
                    Side::Omit => {},
                }
            },
        }
        g = g + 1;
    }
    proof {
        assert(parts_ok(subtotals@, *display, resolved@));
    }
    let net = match total_income.checked_add(&total_expense) {
        Some(n) => n,
        None => return Err(IncomeExpenseError::Internal),
    };
    Ok(
        Summary {
            income_lines,
            expense_lines,
            unvalued_lines,
            total_income,
            total_expense,
            net,
            complete,
        },
    )
}

} // verus!
