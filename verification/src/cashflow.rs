//! The income and expense magnitudes the cashflow diagram is drawn from: one
//! entry per valued category of an income-vs-expense report, labelled for
//! display, its size the category's net with the sign stripped.

use vstd::prelude::*;

use crate::decimal::{neg_spec, Decimal};
use crate::income_expense::{GroupLine, IncomeExpenseError};
use crate::text::{append, opt_string_view};

verus! {

/// One income or expense category's magnitude, before layout.
#[derive(Debug, Clone)]
pub struct FlowAmount {
    pub label: String,
    /// The category's magnitude: its net for income, the negated net for
    /// expense.
    pub magnitude: Decimal,
}

/// The display label of a group: its category's name, or a placeholder for
/// a deleted category or the uncategorised bucket.
pub open spec fn label_spec(name: Option<Seq<char>>, deleted: bool) -> Seq<char> {
    match name {
        Some(n) => n,
        None => if deleted {
            "(deleted category)"@
        } else {
            "Uncategorised"@
        },
    }
}

/// The display label of a report group.
pub fn category_label(group: &GroupLine) -> (r: String)
    ensures
        r@ == label_spec(opt_string_view(group.category_name), group.category_deleted),
{
    match &group.category_name {
        Some(name) => name.clone(),
        None => {
            let mut s = String::new();
            if group.category_deleted {
                append(&mut s, "(deleted category)");
            } else {
                append(&mut s, "Uncategorised");
            }
            s
        },
    }
}

/// The `(label, magnitude)` entries of the first `n` groups: a group without
/// a converted net cannot be sized and is left out; an expense group's net
/// is negated (negation is exact, so this is always `Some`).
pub open spec fn flows_prefix(lines: Seq<GroupLine>, expense: bool, n: nat) -> Option<
    Seq<(Seq<char>, Decimal)>,
>
    decreases n,
{
    if n == 0 {
        Some(Seq::empty())
    } else {
        match flows_prefix(lines, expense, (n - 1) as nat) {
            None => None,
            Some(acc) => {
                let g = lines[n - 1];
                match g.converted_net {
                    None => Some(acc),
                    Some(net) => {
                        let label = label_spec(opt_string_view(g.category_name), g.category_deleted);
                        if expense {
                            match neg_spec(net) {
                                None => None,
                                Some(m) => Some(acc.push((label, m))),
                            }
                        } else {
                            Some(acc.push((label, net)))
                        }
                    },
                }
            },
        }
    }
}

/// The view of flow entries.
pub open spec fn flows_view(v: Seq<FlowAmount>) -> Seq<(Seq<char>, Decimal)> {
    v.map_values(|f: FlowAmount| (f.label@, f.magnitude))
}

proof fn lemma_flows_none_sticks(lines: Seq<GroupLine>, expense: bool, i: nat, n: nat)
    requires
        i <= n,
        flows_prefix(lines, expense, i) is None,
    ensures
        flows_prefix(lines, expense, n) is None,
    decreases n - i,
{
    if i < n {
        lemma_flows_none_sticks(lines, expense, i, (n - 1) as nat);
    }
}

/// Whether entry `e` sizes group `g`: it carries the group's label and, at
/// the scale of the group's net, the net itself for income or its negation
/// for expense.
pub open spec fn sizes(e: (Seq<char>, Decimal), g: GroupLine, expense: bool) -> bool {
    &&& g.converted_net is Some
    &&& e.0 == label_spec(opt_string_view(g.category_name), g.category_deleted)
    &&& e.1.scale == g.converted_net->0.scale
    &&& (expense ==> e.1.m() == -g.converted_net->0.m())
    &&& (!expense ==> e.1.m() == g.converted_net->0.m())
}

/// The flows of the first `n` groups always exist; every entry sizes one of
/// those groups (so an expense entry is the negated net, and is non-negative
/// whenever the net is non-positive), and every group with a converted net
/// is sized by one of the entries.
pub proof fn lemma_flow_magnitudes(lines: Seq<GroupLine>, expense: bool, n: nat)
    requires
        n <= lines.len(),
    ensures
        flows_prefix(lines, expense, n) is Some,
        flows_prefix(lines, expense, n)->0.len() <= n,
        forall|j: int|
            0 <= j < flows_prefix(lines, expense, n)->0.len() ==> exists|i: int|
                0 <= i < n && sizes(
                    #[trigger] flows_prefix(lines, expense, n)->0[j],
                    #[trigger] lines[i],
                    expense,
                ),
        forall|i: int|
            0 <= i < n && (#[trigger] lines[i]).converted_net is Some ==> exists|j: int|
                0 <= j < flows_prefix(lines, expense, n)->0.len() && sizes(
                    #[trigger] flows_prefix(lines, expense, n)->0[j],
                    lines[i],
                    expense,
                ),
    decreases n,
{
    if n > 0 {
        lemma_flow_magnitudes(lines, expense, (n - 1) as nat);
        let acc = flows_prefix(lines, expense, (n - 1) as nat)->0;
        let v = flows_prefix(lines, expense, n)->0;
        let g = lines[n - 1];
        if let Some(net) = g.converted_net {
            crate::decimal::lemma_dec_m(-net.m(), net.scale as int);
            assert(v.len() == acc.len() + 1);
            assert(sizes(v[acc.len() as int], lines[n - 1], expense));
            assert forall|j: int| 0 <= j < v.len() implies exists|i: int|
                0 <= i < n && sizes(#[trigger] v[j], #[trigger] lines[i], expense) by {
                if j < acc.len() {
                    assert(v[j] == acc[j]);
                    let i = choose|i: int| 0 <= i < n - 1 && sizes(#[trigger] acc[j], #[trigger] lines[i], expense);
                    assert(sizes(v[j], lines[i], expense));
                } else {
                    assert(sizes(v[j], lines[n - 1], expense));
                }
            }
            assert forall|i: int| 0 <= i < n && (#[trigger] lines[i]).converted_net is Some implies exists|j: int|
                0 <= j < v.len() && sizes(#[trigger] v[j], lines[i], expense) by {
                if i < n - 1 {
                    let j = choose|j: int| 0 <= j < acc.len() && sizes(#[trigger] acc[j], lines[i], expense);
                    assert(v[j] == acc[j]);
                } else {
                    assert(sizes(v[acc.len() as int], lines[i], expense));
                }
            }
        } else {
            assert(v == acc);
            assert forall|j: int| 0 <= j < v.len() implies exists|i: int|
                0 <= i < n && sizes(#[trigger] v[j], #[trigger] lines[i], expense) by {
                let i = choose|i: int| 0 <= i < n - 1 && sizes(#[trigger] acc[j], #[trigger] lines[i], expense);
                assert(sizes(v[j], lines[i], expense));
            }
            assert forall|i: int| 0 <= i < n && (#[trigger] lines[i]).converted_net is Some implies exists|j: int|
                0 <= j < v.len() && sizes(#[trigger] v[j], lines[i], expense) by {
                if i < n - 1 {
                    let j = choose|j: int| 0 <= j < acc.len() && sizes(#[trigger] acc[j], lines[i], expense);
                    assert(sizes(v[j], lines[i], expense));
                }
            }
        }
    }
}

/// The flow entries of `lines`, in order: income groups (`expense` false)
/// keep their net, expense groups have it negated; a group with no converted
/// net is left out. Negation is exact, so this never fails.
pub fn flow_amounts(lines: &Vec<GroupLine>, expense: bool) -> (r: Result<
    Vec<FlowAmount>,
    IncomeExpenseError,
>)
    ensures
        match flows_prefix(lines@, expense, lines@.len()) {
            None => r == Err::<Vec<FlowAmount>, IncomeExpenseError>(IncomeExpenseError::Internal),
            Some(f) => r matches Ok(v) && flows_view(v@) == f,
        },
{
    let mut out: Vec<FlowAmount> = Vec::new();
    let mut i: usize = 0;
    assert(flows_view(out@) =~= Seq::empty());
    while i < lines.len()
        invariant
            i <= lines@.len(),
            flows_prefix(lines@, expense, i as nat) == Some(flows_view(out@)),
        decreases lines.len() - i,
    {
        let g = &lines[i];
        let ghost before = flows_view(out@);
        match &g.converted_net {
            None => {},
            Some(net) => {
                let magnitude = if expense {
                    match net.checked_neg() {
                        Some(m) => m,
                        None => {
                            proof {
                                lemma_flows_none_sticks(
                                    lines@,
                                    expense,
                                    (i + 1) as nat,
                                    lines@.len(),
                                );
                            }
                            return Err(IncomeExpenseError::Internal);
                        },
                    }
                } else {
                    net.dup()
                };
                let label = category_label(g);
                out.push(FlowAmount { label, magnitude });
                assert(flows_view(out@) =~= before.push((label@, magnitude)));
            },
        }
        i = i + 1;
    }
    Ok(out)
}

} // verus!
