//! Net worth: every per-currency position valued into one display currency
//! and summed. A position with no resolvable rate stays visible as an
//! unvalued line, is left out of the total, and marks the valuation
//! incomplete.

use vstd::prelude::*;

use std::collections::HashMap;

use crate::assets::conversion::{convert, converted_spec};
use crate::assets::rates::ResolvedRate;
use crate::decimal::{add_spec, dec, Decimal, Rounding};

verus! {

broadcast use vstd::std_specs::hash::group_hash_axioms;

/// Rounding applied when a position is converted into the display currency.
pub const NET_WORTH_ROUNDING: Rounding = Rounding::HalfEven;

/// Why a net-worth report could not be produced.
#[derive(Debug, Clone, Copy, PartialEq, Eq)]
pub enum NetWorthError {
    Unauthorized,
    InvalidInput(&'static str),
    CurrencyNotFound,
    Internal,
}

impl NetWorthError {
    /// The user-facing message for this error.
    pub fn message(&self) -> (r: &'static str)
        ensures
            r@ == (match *self {
                NetWorthError::Unauthorized => "you must be signed in to do this"@,
                NetWorthError::InvalidInput(message) => message@,
                NetWorthError::CurrencyNotFound => "that display currency does not exist"@,
                NetWorthError::Internal => "something went wrong"@,
            }),
    {
        match self {
            NetWorthError::Unauthorized => "you must be signed in to do this",
            NetWorthError::InvalidInput(message) => message,
            NetWorthError::CurrencyNotFound => "that display currency does not exist",
            NetWorthError::Internal => "something went wrong",
        }
    }
}

/// The currency a report is expressed in.
#[derive(Debug, Clone)]
pub struct DisplayCurrency {
    pub asset_id: u128,
    pub alphabetic_code: String,
    pub minor_units: i16,
}

/// One signed position: the user's balance in one currency across accounts.
#[derive(Debug, Clone)]
pub struct Position {
    pub asset_id: u128,
    pub currency_code: String,
    pub balance: Decimal,
}

/// One valued breakdown line.
#[derive(Debug, Clone)]
pub struct ValuedLine {
    pub currency_code: String,
    pub amount: Decimal,
    pub converted_amount: Option<Decimal>,
    pub rate: Option<Decimal>,
    pub valuation_timestamp: Option<i64>,
    pub is_display_currency: bool,
}

/// The outcome of valuing a set of positions.
#[derive(Debug, Clone)]
pub struct PositionValuation {
    pub lines: Vec<ValuedLine>,
    pub total: Decimal,
    pub complete: bool,
    pub rates_as_of: Option<i64>,
}

/// The whole report: the display currency plus its valued breakdown.
#[derive(Debug, Clone)]
pub struct ValuedReport {
    pub display: DisplayCurrency,
    pub lines: Vec<ValuedLine>,
    pub total: Decimal,
    pub complete: bool,
    pub rates_as_of: Option<i64>,
}

/// What one position contributes: `Ok(Some(v))` valued at `v`, `Ok(None)`
/// unvalued (no rate), `Err(())` when its conversion is rejected.
pub open spec fn position_value(
    p: Position,
    display: DisplayCurrency,
    resolved: Map<u128, ResolvedRate>,
) -> Result<Option<Decimal>, ()> {
    if p.asset_id == display.asset_id {
        Ok(Some(p.balance))
    } else if resolved.contains_key(p.asset_id) {
        match converted_spec(
            p.balance,
            resolved[p.asset_id].rate,
            p.asset_id,
            display.asset_id,
            display.minor_units,
            NET_WORTH_ROUNDING,
        ) {
            Ok(c) => Ok(Some(c)),
            Err(_) => Err(()),
        }
    } else {
        Ok(None)
    }
}

/// The earlier of an optional instant and a new one.
pub open spec fn min_as_of(a: Option<i64>, t: i64) -> Option<i64> {
    match a {
        None => Some(t),
        Some(x) => if x <= t {
            Some(x)
        } else {
            Some(t)
        },
    }
}

/// `(total, complete, rates_as_of)` over the first `n` positions, or `None`
/// when a conversion is rejected or the total's terms have scales too far apart to align in an `i64`.
pub open spec fn valuation_prefix(
    ps: Seq<Position>,
    display: DisplayCurrency,
    resolved: Map<u128, ResolvedRate>,
    n: nat,
) -> Option<(Decimal, bool, Option<i64>)>
    decreases n,
{
    if n == 0 {
        Some((dec(0, 0), true, None))
    } else {
        match valuation_prefix(ps, display, resolved, (n - 1) as nat) {
            None => None,
            Some(acc) => {
                let p = ps[n - 1];
                match position_value(p, display, resolved) {
                    Err(_) => None,
                    Ok(None) => Some((acc.0, false, acc.2)),
                    Ok(Some(v)) => match add_spec(acc.0, v) {
                        None => None,
                        Some(t) => Some(
                            (
                                t,
                                acc.1,
                                if p.asset_id == display.asset_id {
                                    acc.2
                                } else {
                                    min_as_of(acc.2, resolved[p.asset_id].valuation_timestamp)
                                },
                            ),
                        ),
                    },
                }
            },
        }
    }
}

/// The line [`value_positions`] renders for position `p`.
pub open spec fn line_matches(
    l: ValuedLine,
    p: Position,
    display: DisplayCurrency,
    resolved: Map<u128, ResolvedRate>,
) -> bool {
    &&& l.currency_code@ == p.currency_code@
    &&& l.amount == p.balance
    &&& if p.asset_id == display.asset_id {
        &&& l.converted_amount == Some(p.balance)
        &&& l.rate is None
        &&& l.valuation_timestamp is None
        &&& l.is_display_currency
    } else if resolved.contains_key(p.asset_id) {
        &&& position_value(p, display, resolved) == Ok::<Option<Decimal>, ()>(l.converted_amount)
        &&& l.rate == Some(resolved[p.asset_id].rate)
        &&& l.valuation_timestamp == Some(resolved[p.asset_id].valuation_timestamp)
        &&& !l.is_display_currency
    } else {
        &&& l.converted_amount is None
        &&& l.rate is None
        &&& l.valuation_timestamp is None
        &&& !l.is_display_currency
    }
}

/// The rate resolved for `asset_id`, if any.
pub fn lookup_rate(resolved: &HashMap<u128, ResolvedRate>, asset_id: u128) -> (r: Option<
    ResolvedRate,
>)
    ensures
        r is Some <==> resolved@.contains_key(asset_id),
        r matches Some(x) ==> x == resolved@[asset_id],
{
    match resolved.get(&asset_id) {
        Some(x) => Some(x.dup()),
        None => None,
    }
}

proof fn lemma_valuation_none_sticks(
    ps: Seq<Position>,
    display: DisplayCurrency,
    resolved: Map<u128, ResolvedRate>,
    i: nat,
    n: nat,
)
    requires
        i <= n,
        valuation_prefix(ps, display, resolved, i) is None,
    ensures
        valuation_prefix(ps, display, resolved, n) is None,
    decreases n - i,
{
    if i < n {
        lemma_valuation_none_sticks(ps, display, resolved, i + 1, n);
    }
}

/// Whether position `p` is valued through a resolved rate (a foreign
/// currency with a rate).
pub open spec fn rated(p: Position, display: DisplayCurrency, resolved: Map<u128, ResolvedRate>) -> bool {
    p.asset_id != display.asset_id && resolved.contains_key(p.asset_id)
}

/// What a successful valuation of the first `n` positions promises: it is
/// complete exactly when every position is in the display currency or has a
/// rate; `rates_as_of` is absent exactly when no position went through a
/// rate, and otherwise is the earliest valuation instant among those that
/// did; the total is the in-order sum of the valued amounts, unvalued
/// positions contributing nothing.
pub proof fn lemma_valuation_laws(
    ps: Seq<Position>,
    display: DisplayCurrency,
    resolved: Map<u128, ResolvedRate>,
    n: nat,
)
    requires
        n <= ps.len(),
        valuation_prefix(ps, display, resolved, n) is Some,
    ensures
        (valuation_prefix(ps, display, resolved, n)->0).1 <==> forall|i: int|
            0 <= i < n ==> (#[trigger] ps[i]).asset_id == display.asset_id || resolved.contains_key(
                ps[i].asset_id,
            ),
        (valuation_prefix(ps, display, resolved, n)->0).2 is None <==> forall|i: int|
            0 <= i < n ==> !rated(#[trigger] ps[i], display, resolved),
        forall|i: int|
            0 <= i < n && rated(#[trigger] ps[i], display, resolved) ==> (valuation_prefix(
                ps,
                display,
                resolved,
                n,
            )->0).2->0 <= resolved[ps[i].asset_id].valuation_timestamp,
        (valuation_prefix(ps, display, resolved, n)->0).2 matches Some(t) ==> exists|i: int|
            0 <= i < n && rated(#[trigger] ps[i], display, resolved) && t
                == resolved[ps[i].asset_id].valuation_timestamp,
        valued_sum(ps, display, resolved, n) == Some((valuation_prefix(ps, display, resolved, n)->0).0),
    decreases n,
{
    if n > 0 {
        let prev = valuation_prefix(ps, display, resolved, (n - 1) as nat);
        if prev is None {
            assert(valuation_prefix(ps, display, resolved, n) is None);
        }
        lemma_valuation_laws(ps, display, resolved, (n - 1) as nat);
        let a = prev->0;
        let acc = valuation_prefix(ps, display, resolved, n)->0;
        let p = ps[n - 1];
        if rated(p, display, resolved) {
            assert(rated(ps[n - 1], display, resolved));
            if let Some(t) = acc.2 {
                if a.2 is Some && a.2->0 <= resolved[p.asset_id].valuation_timestamp {
                    let w = choose|i: int|
                        0 <= i < n - 1 && rated(#[trigger] ps[i], display, resolved) && a.2->0
                            == resolved[ps[i].asset_id].valuation_timestamp;
                    assert(0 <= w < n && rated(ps[w], display, resolved));
                } else {
                    assert(rated(ps[n - 1], display, resolved));
                }
            }
        } else {
            if let Some(t) = acc.2 {
                let w = choose|i: int|
                    0 <= i < n - 1 && rated(#[trigger] ps[i], display, resolved) && t
                        == resolved[ps[i].asset_id].valuation_timestamp;
                assert(0 <= w < n && rated(ps[w], display, resolved));
            }
        }
        if !acc.1 {
            if a.1 {
                assert(!(ps[n - 1].asset_id == display.asset_id || resolved.contains_key(
                    ps[n - 1].asset_id,
                )));
            } else {
                let w = choose|i: int|
                    0 <= i < n - 1 && !((#[trigger] ps[i]).asset_id == display.asset_id
                        || resolved.contains_key(ps[i].asset_id));
                assert(0 <= w < n);
            }
        }
        if acc.2 is Some && a.2 is None && !rated(p, display, resolved) {
            assert(false);
        }
        if acc.2 is Some {
            if a.2 is None {
                assert(rated(ps[n - 1], display, resolved));
            }
        }
    }
}

/// The in-order sum, from zero, of the converted amounts of the first `n`
/// lines (a line without one contributing nothing).
pub open spec fn lines_sum(ls: Seq<ValuedLine>, n: nat) -> Option<Decimal>
    decreases n,
{
    if n == 0 {
        Some(dec(0, 0))
    } else {
        match lines_sum(ls, (n - 1) as nat) {
            None => None,
            Some(a) => match ls[n - 1].converted_amount {
                None => Some(a),
                Some(v) => add_spec(a, v),
            },
        }
    }
}

/// For lines that render the positions (as [`value_positions`] returns
/// them): the valued total is the in-order sum of the lines' converted
/// amounts, and a line lacks a converted amount exactly when its position
/// is in a foreign currency with no rate.
pub proof fn lemma_total_is_lines_sum(
    ps: Seq<Position>,
    display: DisplayCurrency,
    resolved: Map<u128, ResolvedRate>,
    ls: Seq<ValuedLine>,
    n: nat,
)
    requires
        n <= ps.len(),
        ls.len() == ps.len(),
        forall|i: int| 0 <= i < ps.len() ==> line_matches(#[trigger] ls[i], ps[i], display, resolved),
        valued_sum(ps, display, resolved, n) is Some,
    ensures
        lines_sum(ls, n) == valued_sum(ps, display, resolved, n),
        forall|i: int|
            0 <= i < n ==> ((#[trigger] ls[i]).converted_amount is None <==> (ps[i].asset_id
                != display.asset_id && !resolved.contains_key(ps[i].asset_id))),
    decreases n,
{
    if n > 0 {
        if valued_sum(ps, display, resolved, (n - 1) as nat) is None {
            assert(valued_sum(ps, display, resolved, n) is None);
        }
        lemma_total_is_lines_sum(ps, display, resolved, ls, (n - 1) as nat);
        assert(line_matches(ls[n - 1], ps[n - 1], display, resolved));
        assert(position_value(ps[n - 1], display, resolved) is Ok);
    }
}

/// The in-order sum of the valued amounts of the first `n` positions, from
/// zero; `None` when a conversion is rejected or the sum leaves the
/// `i64` range when aligning scales.
pub open spec fn valued_sum(
    ps: Seq<Position>,
    display: DisplayCurrency,
    resolved: Map<u128, ResolvedRate>,
    n: nat,
) -> Option<Decimal>
    decreases n,
{
    if n == 0 {
        Some(dec(0, 0))
    } else {
        match valued_sum(ps, display, resolved, (n - 1) as nat) {
            None => None,
            Some(a) => match position_value(ps[n - 1], display, resolved) {
                Err(_) => None,
                Ok(None) => Some(a),
                Ok(Some(v)) => add_spec(a, v),
            },
        }
    }
}


/// Value every position into `display` with the pre-resolved `resolved`
/// rates. The display-currency position contributes its exact balance; any
/// other is converted at its rate, rounded to the display currency's minor
/// units with banker's rounding; one with no rate becomes an unvalued line,
/// is excluded from the total and clears `complete`. `rates_as_of` is the
/// earliest valuation instant used. Lines keep the order of `positions`.
pub fn value_positions(
    positions: &Vec<Position>,
    display: &DisplayCurrency,
    resolved: &HashMap<u128, ResolvedRate>,
) -> (r: Result<PositionValuation, NetWorthError>)
    ensures
        r is Ok <==> valuation_prefix(positions@, *display, resolved@, positions@.len()) is Some,
        r matches Ok(v) ==> {
            &&& v.lines@.len() == positions@.len()
            &&& forall|i: int|
                0 <= i < positions@.len() ==> line_matches(
                    #[trigger] v.lines@[i],
                    positions@[i],
                    *display,
                    resolved@,
                )
            &&& valuation_prefix(positions@, *display, resolved@, positions@.len()) == Some(
                (v.total, v.complete, v.rates_as_of),
            )
        },
        r matches Err(e) ==> e == NetWorthError::Internal,
{
    let mut lines: Vec<ValuedLine> = Vec::new();
    let mut total = Decimal::zero();
    let mut complete = true;
    let mut rates_as_of: Option<i64> = None;
    let mut i: usize = 0;
    while i < positions.len()
        invariant
            i <= positions.len(),
            lines@.len() == i,
            forall|j: int|
                0 <= j < i ==> line_matches(
                    #[trigger] lines@[j],
                    positions@[j],
                    *display,
                    resolved@,
                ),
            valuation_prefix(positions@, *display, resolved@, i as nat) == Some(
                (total, complete, rates_as_of),
            ),
        decreases positions.len() - i,
    {
        let position = &positions[i];
        if position.asset_id == display.asset_id {
            match total.checked_add(&position.balance) {
                Some(t) => total = t,
                None => {
                    proof {
                        lemma_valuation_none_sticks(
                            positions@,
                            *display,
                            resolved@,
                            (i + 1) as nat,
                            positions@.len(),
                        );
                    }
                    return Err(NetWorthError::Internal);
                },
            }
            lines.push(
                ValuedLine {
                    currency_code: position.currency_code.clone(),
                    amount: position.balance.dup(),
                    converted_amount: Some(position.balance.dup()),
                    rate: None,
                    valuation_timestamp: None,
                    is_display_currency: true,
                },
            );
            i = i + 1;
            continue;
        }
        let resolved_rate = match lookup_rate(resolved, position.asset_id) {
            Some(r) => r,
            None => {
                complete = false;
                lines.push(
                    ValuedLine {
                        currency_code: position.currency_code.clone(),
                        amount: position.balance.dup(),
                        converted_amount: None,
                        rate: None,
                        valuation_timestamp: None,
                        is_display_currency: false,
                    },
                );
                i = i + 1;
                continue;
            },
        };
        let converted = match convert(
            &position.balance,
            resolved_rate.rate.dup(),
            position.asset_id,
            display.asset_id,
            resolved_rate.valuation_timestamp,
            display.minor_units,
            NET_WORTH_ROUNDING,
        ) {
            Ok(c) => c,
            Err(_) => {
                proof {
                    lemma_valuation_none_sticks(
                        positions@,
                        *display,
                        resolved@,
                        (i + 1) as nat,
                        positions@.len(),
                    );
                }
                return Err(NetWorthError::Internal);
            },
        };
        match total.checked_add(&converted.converted_amount) {
            Some(t) => total = t,
            None => {
                proof {
                    lemma_valuation_none_sticks(
                        positions@,
                        *display,
                        resolved@,
                        (i + 1) as nat,
                        positions@.len(),
                    );
                }
                return Err(NetWorthError::Internal);
            },
        }
        rates_as_of = Some(
            match rates_as_of {
                Some(current) => if current <= resolved_rate.valuation_timestamp {
                    current
                } else {
                    resolved_rate.valuation_timestamp
                },
                None => resolved_rate.valuation_timestamp,
            },
        );
        lines.push(
            ValuedLine {
                currency_code: position.currency_code.clone(),
                amount: position.balance.dup(),
                converted_amount: Some(converted.converted_amount),
                rate: Some(resolved_rate.rate.dup()),
                valuation_timestamp: Some(resolved_rate.valuation_timestamp),
                is_display_currency: false,
            },
        );
        i = i + 1;
    }
    Ok(PositionValuation { lines, total, complete, rates_as_of })
}

} // verus!
