//! Display helpers of the transaction ledger and the dashboard: long dates,
//! tidy amounts, avatar initials, same-day grouping with per-currency day
//! subtotals, and month labels.

use vstd::prelude::*;

use crate::date::{nat_digits, nat_text};
use crate::decimal::{add_spec, bd_text, parse_spec, Decimal};
use crate::text::{
    alphanumeric, append, byte_len, char_uppercase, chars_of, find_char, is_alphanumeric,
    parse_u32, parse_u32_spec, split_char, split_once, split_once_spec, split_spec, str_eq,
    opt_string_view, string_of, string_texts, trim_end_char, uppercase_char,
};
use crate::transaction_types::TransactionDto;

verus! {

/// The English name of month `m` (`1..=12`).
pub open spec fn month_name(m: int) -> Seq<char> {
    if m == 1 {
        "January"@
    } else if m == 2 {
        "February"@
    } else if m == 3 {
        "March"@
    } else if m == 4 {
        "April"@
    } else if m == 5 {
        "May"@
    } else if m == 6 {
        "June"@
    } else if m == 7 {
        "July"@
    } else if m == 8 {
        "August"@
    } else if m == 9 {
        "September"@
    } else if m == 10 {
        "October"@
    } else if m == 11 {
        "November"@
    } else {
        "December"@
    }
}

fn month_name_of(m: u32) -> (r: &'static str)
    requires
        1 <= m <= 12,
    ensures
        r@ == month_name(m as int),
{
    if m == 1 {
        "January"
    } else if m == 2 {
        "February"
    } else if m == 3 {
        "March"
    } else if m == 4 {
        "April"
    } else if m == 5 {
        "May"
    } else if m == 6 {
        "June"
    } else if m == 7 {
        "July"
    } else if m == 8 {
        "August"
    } else if m == 9 {
        "September"
    } else if m == 10 {
        "October"
    } else if m == 11 {
        "November"
    } else {
        "December"
    }
}

/// What [`long_date`] shows for `iso`: with at least three `-`-separated
/// parts, a month number `1..=12` and a numeric day, `"<Month> <day>,
/// <year>"` (the day without leading zeros); otherwise `iso` unchanged.
pub open spec fn long_date_spec(iso: Seq<char>) -> Seq<char> {
    let p = split_spec(iso, '-');
    if p.len() < 3 {
        iso
    } else {
        match (parse_u32_spec(p[1]), parse_u32_spec(p[2])) {
            (Some(m), Some(d)) => if 1 <= m <= 12 {
                month_name(m as int) + " "@ + nat_digits(d as nat) + ", "@ + p[0]
            } else {
                iso
            },
            _ => iso,
        }
    }
}

/// `"2026-01-05"` to `"January 5, 2026"`; the text unchanged on any parse
/// failure.
pub fn long_date(iso: &str) -> (r: String)
    ensures
        r@ == long_date_spec(iso@),
{
    let parts = split_char(iso, '-');
    let ghost p = string_texts(parts@);
    if parts.len() < 3 {
        return string_of(&chars_of(iso));
    }
    assert(p[1] == parts@[1]@ && p[2] == parts@[2]@ && p[0] == parts@[0]@);
    match (parse_u32(parts[1].as_str()), parse_u32(parts[2].as_str())) {
        (Some(m), Some(d)) => {
            if 1 <= m && m <= 12 {
                let mut s = String::new();
                append(&mut s, month_name_of(m));
                append(&mut s, " ");
                append(&mut s, string_of(&nat_text(d as u64)).as_str());
                append(&mut s, ", ");
                append(&mut s, parts[0].as_str());
                assert(s@ =~= long_date_spec(iso@));
                s
            } else {
                string_of(&chars_of(iso))
            }
        },
        _ => string_of(&chars_of(iso)),
    }
}

/// What [`trim_amount`] shows: the integer part, a point, and the fraction
/// with its trailing zeros dropped but padded back to two digits.
pub open spec fn trim_amount_spec(raw: Seq<char>) -> Seq<char> {
    let (int_part, frac) = match split_once_spec(raw, '.') {
        Some(p) => p,
        None => (raw, Seq::empty()),
    };
    let f = trim_end_char(frac, '0');
    if byte_len(f) >= 2 {
        int_part + "."@ + f
    } else {
        int_part + "."@ + f + zero_padding(f.len())
    }
}

/// The `'0'`s that pad a text of `len` characters to two.
pub open spec fn zero_padding(len: nat) -> Seq<char> {
    if len < 2 {
        Seq::new((2 - len) as nat, |i: int| '0')
    } else {
        Seq::empty()
    }
}

/// `v[..n]` without its trailing zeros, as a length.
fn trimmed_zeros_len(v: &Vec<char>) -> (n: usize)
    ensures
        n <= v@.len(),
        v@.take(n as int) == trim_end_char(v@, '0'),
{
    let mut n = v.len();
    assert(v@.take(n as int) =~= v@);
    while n > 0 && v[n - 1] == '0'
        invariant
            n <= v@.len(),
            trim_end_char(v@, '0') == trim_end_char(v@.take(n as int), '0'),
        decreases n,
    {
        assert(v@.take(n as int).drop_last() =~= v@.take(n - 1));
        n = n - 1;
    }
    n
}

/// Tidy a stored amount for display: keep at least two fractional digits,
/// drop pointless trailing zeros beyond that (`"100.000"` to `"100.00"`,
/// `"1.2300"` to `"1.23"`).
pub fn trim_amount(raw: &str) -> (r: String)
    ensures
        r@ == trim_amount_spec(raw@),
{
    proof {
        reveal_strlit("");
    }
    let (int_part, frac) = match split_once(raw, '.') {
        Some(p) => p,
        None => (string_of(&chars_of(raw)), String::new()),
    };
    assert(split_once_spec(raw@, '.') is None ==> frac@ =~= Seq::<char>::empty());
    let fv = chars_of(frac.as_str());
    let n = trimmed_zeros_len(&fv);
    let f = crate::text::string_of_range(&fv, 0, n);
    assert(f@ =~= fv@.take(n as int));
    let mut s = int_part;
    append(&mut s, ".");
    append(&mut s, f.as_str());
    if f.as_str().len() < 2 {
        let ghost before = s@;
        if n < 2 {
            let pad: usize = 2 - n;
            let mut k: usize = 0;
            while k < pad
                invariant
                    k <= pad,
                    s@ == before + Seq::new(k as nat, |i: int| '0'),
                decreases pad - k,
            {
                crate::text::push_char(&mut s, '0');
                k = k + 1;
                assert(s@ =~= before + Seq::new(k as nat, |i: int| '0'));
            }
        } else {
            assert(before + zero_padding(f@.len()) =~= before);
        }
    }
    assert(s@ =~= trim_amount_spec(raw@));
    s
}

/// The first character of `seed` that is alphanumeric, among the first `n`.
pub open spec fn first_alnum(seed: Seq<char>, n: nat) -> Option<char>
    decreases n,
{
    if n == 0 {
        None
    } else {
        match first_alnum(seed, (n - 1) as nat) {
            Some(c) => Some(c),
            None => if alphanumeric(seed[n - 1]) {
                Some(seed[n - 1])
            } else {
                None
            },
        }
    }
}

/// What [`first_initial`] shows: the uppercase of the first alphanumeric
/// character, or `"?"` when there is none.
pub open spec fn first_initial_spec(seed: Seq<char>) -> Seq<char> {
    match first_alnum(seed, seed.len()) {
        Some(c) => char_uppercase(c),
        None => "?"@,
    }
}

proof fn lemma_first_alnum_stays(seed: Seq<char>, i: nat, n: nat)
    requires
        i <= n,
        first_alnum(seed, i) is Some,
    ensures
        first_alnum(seed, n) == first_alnum(seed, i),
    decreases n - i,
{
    if i < n {
        lemma_first_alnum_stays(seed, i, (n - 1) as nat);
    }
}

/// The first alphanumeric character of a name, uppercased, for the row
/// avatar; `"?"` when there is none.
pub fn first_initial(seed: &str) -> (r: String)
    ensures
        r@ == first_initial_spec(seed@),
{
    let v = chars_of(seed);
    let mut i: usize = 0;
    while i < v.len()
        invariant
            i <= v@.len(),
            v@ == seed@,
            first_alnum(seed@, i as nat) is None,
        decreases v.len() - i,
    {
        if is_alphanumeric(v[i]) {
            proof {
                lemma_first_alnum_stays(seed@, (i + 1) as nat, seed@.len());
            }
            return uppercase_char(v[i]);
        }
        i = i + 1;
    }
    let mut s = String::new();
    append(&mut s, "?");
    assert(s@ =~= "?"@);
    s
}

/// Consecutive same-day groups of the first `n` rows.
pub open spec fn groups_prefix(rows: Seq<TransactionDto>, n: nat) -> Seq<
    (Seq<char>, Seq<TransactionDto>),
>
    decreases n,
{
    if n == 0 {
        Seq::empty()
    } else {
        let g = groups_prefix(rows, (n - 1) as nat);
        let row = rows[n - 1];
        if g.len() > 0 && g.last().0 == row.booking_date@ {
            g.update(g.len() - 1, (g.last().0, g.last().1.push(row)))
        } else {
            g.push((row.booking_date@, seq![row]))
        }
    }
}

/// The view of the groups.
pub open spec fn groups_view(g: Seq<(String, Vec<TransactionDto>)>) -> Seq<
    (Seq<char>, Seq<TransactionDto>),
> {
    g.map_values(|x: (String, Vec<TransactionDto>)| (x.0@, x.1@))
}

/// Split a flat, newest-first transaction list into consecutive same-day
/// groups, keeping the order of the rows.
pub fn group_by_date(rows: Vec<TransactionDto>) -> (r: Vec<(String, Vec<TransactionDto>)>)
    ensures
        groups_view(r@) == groups_prefix(rows@, rows@.len()),
{
    let ghost all = rows@;
    let total = rows.len();
    let mut rest = rows;
    let mut groups: Vec<(String, Vec<TransactionDto>)> = Vec::new();
    let mut current: Option<(String, Vec<TransactionDto>)> = None;
    let mut k: usize = 0;
    assert(all.skip(0) =~= all);
    while rest.len() > 0
        invariant
            k <= all.len(),
            total == all.len(),
            rest@ == all.skip(k as int),
            ({
                let g = groups_prefix(all, k as nat);
                match current {
                    None => k == 0 && groups_view(groups@) == g,
                    Some(c) => g.len() > 0 && groups_view(groups@) == g.drop_last() && g.last() == (
                    c.0@, c.1@),
                }
            }),
        decreases rest.len(),
    {
        let row = rest.remove(0);
        assert(row == all[k as int]);
        assert(rest@ =~= all.skip(k + 1));
        let ghost g = groups_prefix(all, k as nat);
        match current {
            None => {
                let date = row.booking_date.clone();
                let mut bucket: Vec<TransactionDto> = Vec::new();
                bucket.push(row);
                assert(bucket@ =~= seq![row]);
                current = Some((date, bucket));
            },
            Some((date, mut bucket)) => {
                if str_eq(date.as_str(), row.booking_date.as_str()) {
                    bucket.push(row);
                    current = Some((date, bucket));
                    assert(groups_prefix(all, (k + 1) as nat).drop_last() =~= g.drop_last());
                } else {
                    let ghost before = groups_view(groups@);
                    let ghost last = (date@, bucket@);
                    groups.push((date, bucket));
                    assert(groups_view(groups@) =~= before.push(last));
                    assert(g =~= g.drop_last().push(g.last()));
                    assert(groups_view(groups@) =~= g);
                    let d = row.booking_date.clone();
                    let mut fresh: Vec<TransactionDto> = Vec::new();
                    fresh.push(row);
                    assert(fresh@ =~= seq![row]);
                    current = Some((d, fresh));
                    assert(groups_prefix(all, (k + 1) as nat).drop_last() =~= g);
                }
            },
        }
        k = k + 1;
    }
    assert(k == all.len());
    match current {
        None => {},
        Some(c) => {
            let ghost before = groups_view(groups@);
            let ghost g = groups_prefix(all, k as nat);
            let ghost last = (c.0@, c.1@);
            groups.push(c);
            assert(groups_view(groups@) =~= before.push(last));
            assert(g =~= g.drop_last().push(g.last()));
            assert(groups_view(groups@) =~= groups_prefix(all, k as nat));
        },
    }
    groups
}

/// The rows of `groups`, group after group.
pub open spec fn flatten_groups(groups: Seq<(Seq<char>, Seq<TransactionDto>)>) -> Seq<
    TransactionDto,
>
    decreases groups.len(),
{
    if groups.len() == 0 {
        Seq::empty()
    } else {
        flatten_groups(groups.drop_last()) + groups.last().1
    }
}

/// Grouping by day loses, repeats and reorders no row: the groups, read in
/// order, are the rows. Every group is non-empty, holds only rows of its own
/// day, and two neighbouring groups are of different days.
pub proof fn lemma_groups_partition_rows(rows: Seq<TransactionDto>, n: nat)
    requires
        n <= rows.len(),
    ensures
        flatten_groups(groups_prefix(rows, n)) == rows.take(n as int),
        forall|i: int|
            0 <= i < groups_prefix(rows, n).len() ==> (#[trigger] groups_prefix(rows, n)[i]).1.len()
                > 0,
        forall|i: int, j: int|
            0 <= i < groups_prefix(rows, n).len() && 0 <= j < groups_prefix(rows, n)[i].1.len()
                ==> (#[trigger] groups_prefix(rows, n)[i].1[j]).booking_date@ == groups_prefix(
                rows,
                n,
            )[i].0,
        forall|i: int|
            0 < i < groups_prefix(rows, n).len() ==> (#[trigger] groups_prefix(rows, n)[i]).0
                != groups_prefix(rows, n)[i - 1].0,
    decreases n,
{
    if n > 0 {
        lemma_groups_partition_rows(rows, (n - 1) as nat);
        let g = groups_prefix(rows, (n - 1) as nat);
        let row = rows[n - 1];
        let h = groups_prefix(rows, n);
        assert(rows.take(n as int) =~= rows.take(n - 1).push(row));
        if g.len() > 0 && g.last().0 == row.booking_date@ {
            assert(h.drop_last() =~= g.drop_last());
            assert(flatten_groups(g) == flatten_groups(g.drop_last()) + g.last().1);
            assert(flatten_groups(h) =~= flatten_groups(g).push(row));
            assert forall|i: int, j: int|
                0 <= i < h.len() && 0 <= j < h[i].1.len() implies (#[trigger] h[i].1[j]).booking_date@
                == h[i].0 by {
                if i < h.len() - 1 {
                    assert(h[i] == g[i]);
                } else if j < g.last().1.len() {
                    assert(h[i].1[j] == g[i].1[j]);
                }
            }
        } else {
            assert(h.drop_last() =~= g);
            assert(flatten_groups(h) =~= flatten_groups(g) + seq![row]);
            assert forall|i: int, j: int|
                0 <= i < h.len() && 0 <= j < h[i].1.len() implies (#[trigger] h[i].1[j]).booking_date@
                == h[i].0 by {
                if i < h.len() - 1 {
                    assert(h[i] == g[i]);
                }
            }
        }
    } else {
        assert(rows.take(0) =~= Seq::<TransactionDto>::empty());
    }
}

/// Whether `code` is among the currencies of `totals`.
pub open spec fn has_code(totals: Seq<(Seq<char>, Decimal)>, code: Seq<char>) -> bool {
    exists|j: int| 0 <= j < totals.len() && totals[j].0 == code
}

/// The index of `code` in `totals`.
pub open spec fn code_index(totals: Seq<(Seq<char>, Decimal)>, code: Seq<char>) -> int {
    choose|j: int| 0 <= j < totals.len() && totals[j].0 == code
}

/// The per-currency totals of the first `n` rows, in first-mention order:
/// transfer legs and amounts that do not parse are skipped; `None` when a
/// total's terms have scales too far apart to align in an `i64`.
pub open spec fn totals_prefix(rows: Seq<TransactionDto>, n: nat) -> Option<
    Seq<(Seq<char>, Decimal)>,
>
    decreases n,
{
    if n == 0 {
        Some(Seq::empty())
    } else {
        match totals_prefix(rows, (n - 1) as nat) {
            None => None,
            Some(t) => {
                let row = rows[n - 1];
                if row.transfer_id is Some {
                    Some(t)
                } else {
                    match parse_spec(row.amount@) {
                        None => Some(t),
                        Some(a) => if has_code(t, row.asset_code@) {
                            let j = code_index(t, row.asset_code@);
                            match add_spec(t[j].1, a) {
                                None => None,
                                Some(s) => Some(t.update(j, (t[j].0, s))),
                            }
                        } else {
                            Some(t.push((row.asset_code@, a)))
                        },
                    }
                }
            },
        }
    }
}

/// Whether the currencies of `t` are pairwise distinct.
pub open spec fn distinct_codes(t: Seq<(Seq<char>, Decimal)>) -> bool {
    forall|i: int, j: int| 0 <= i < j < t.len() ==> t[i].0 != t[j].0
}

proof fn lemma_totals_distinct(rows: Seq<TransactionDto>, n: nat)
    ensures
        totals_prefix(rows, n) matches Some(t) ==> distinct_codes(t),
    decreases n,
{
    if n > 0 {
        lemma_totals_distinct(rows, (n - 1) as nat);
        if let Some(t) = totals_prefix(rows, (n - 1) as nat) {
            let row = rows[n - 1];
            if row.transfer_id is None {
                if let Some(a) = parse_spec(row.amount@) {
                    if has_code(t, row.asset_code@) {
                        let j = code_index(t, row.asset_code@);
                        if let Some(s) = add_spec(t[j].1, a) {
                            let u = t.update(j, (t[j].0, s));
                            assert forall|x: int, y: int| 0 <= x < y < u.len() implies u[x].0
                                != u[y].0 by {
                                assert(u[x].0 == t[x].0);
                                assert(u[y].0 == t[y].0);
                            }
                        }
                    }
                }
            }
        }
    }
}

/// The view of running totals.
pub open spec fn totals_view(v: Seq<(String, Decimal)>) -> Seq<(Seq<char>, Decimal)> {
    v.map_values(|x: (String, Decimal)| (x.0@, x.1))
}

/// The text of each day subtotal: the currency and the tidy amount.
pub open spec fn subtotal_texts(t: Seq<(Seq<char>, Decimal)>) -> Seq<(Seq<char>, Seq<char>)> {
    t.map_values(
        |x: (Seq<char>, Decimal)|
            (x.0, trim_amount_spec(bd_text(x.1.m(), x.1.scale as int))),
    )
}

/// A day's per-currency total of its non-transfer amounts, tidy-formatted,
/// currencies in first-mention order; an amount that does not parse is
/// skipped. `None` when a total's terms have scales too far apart to align in an `i64`.
pub fn day_subtotals(rows: &Vec<TransactionDto>) -> (r: Option<Vec<(String, String)>>)
    ensures
        match totals_prefix(rows@, rows@.len()) {
            None => r is None,
            Some(t) => r matches Some(v) && v@.map_values(|x: (String, String)| (x.0@, x.1@))
                == subtotal_texts(t),
        },
{
    let mut totals: Vec<(String, Decimal)> = Vec::new();
    let mut i: usize = 0;
    assert(totals_view(totals@) =~= Seq::empty());
    while i < rows.len()
        invariant
            i <= rows@.len(),
            totals_prefix(rows@, i as nat) == Some(totals_view(totals@)),
        decreases rows.len() - i,
    {
        let row = &rows[i];
        proof {
            lemma_totals_distinct(rows@, i as nat);
        }
        let ghost t = totals_view(totals@);
        if row.transfer_id.is_none() {
            if let Some(amount) = Decimal::parse(row.amount.as_str()) {
                let mut j: usize = 0;
                let mut found = false;
                while j < totals.len() && !found
                    invariant
                        j <= totals@.len(),
                        t == totals_view(totals@),
                        !found ==> forall|k: int| 0 <= k < j ==> t[k].0 != row.asset_code@,
                        found ==> j < totals@.len() && t[j as int].0 == row.asset_code@,
                    decreases totals.len() - j + (if found {
                        0int
                    } else {
                        1int
                    }),
                {
                    assert(t[j as int] == (totals@[j as int].0@, totals@[j as int].1));
                    if str_eq(totals[j].0.as_str(), row.asset_code.as_str()) {
                        found = true;
                    } else {
                        j = j + 1;
                    }
                }
                if found {
                    proof {
                        let c = code_index(t, row.asset_code@);
                        assert(c == j);
                    }
                    match totals[j].1.checked_add(&amount) {
                        None => {
                            proof {
                                lemma_totals_none_sticks(rows@, (i + 1) as nat, rows@.len());
                            }
                            return None;
                        },
                        Some(s) => {
                            let code = totals[j].0.clone();
                            totals.set(j, (code, s));
                            assert(totals_view(totals@) =~= t.update(j as int, (t[j as int].0, s)));
                        },
                    }
                } else {
                    totals.push((row.asset_code.clone(), amount));
                    assert(totals_view(totals@) =~= t.push((row.asset_code@, amount)));
                }
            }
        }
        i = i + 1;
    }
    let ghost t = totals_view(totals@);
    let mut out: Vec<(String, String)> = Vec::new();
    let mut k: usize = 0;
    while k < totals.len()
        invariant
            k <= totals@.len(),
            t == totals_view(totals@),
            out@.map_values(|x: (String, String)| (x.0@, x.1@)) == subtotal_texts(t.take(k as int)),
        decreases totals.len() - k,
    {
        let text = totals[k].1.to_text();
        let tidy = trim_amount(text.as_str());
        let ghost before = out@.map_values(|x: (String, String)| (x.0@, x.1@));
        let code = totals[k].0.clone();
        assert(t[k as int] == (totals@[k as int].0@, totals@[k as int].1));
        let ghost item = (code@, tidy@);
        out.push((code, tidy));
        assert(t.take(k + 1) =~= t.take(k as int).push(t[k as int]));
        assert(out@.map_values(|x: (String, String)| (x.0@, x.1@)) =~= before.push(item));
        assert(subtotal_texts(t.take(k + 1)) =~= subtotal_texts(t.take(k as int)).push(
            (t[k as int].0, trim_amount_spec(bd_text(t[k as int].1.m(), t[k as int].1.scale as int))),
        ));
        assert(out@.map_values(|x: (String, String)| (x.0@, x.1@)) =~= subtotal_texts(
            t.take(k + 1),
        ));
        k = k + 1;
    }
    assert(t.take(totals@.len() as int) =~= t);
    Some(out)
}

proof fn lemma_totals_none_sticks(rows: Seq<TransactionDto>, i: nat, n: nat)
    requires
        i <= n,
        totals_prefix(rows, i) is None,
    ensures
        totals_prefix(rows, n) is None,
    decreases n - i,
{
    if i < n {
        lemma_totals_none_sticks(rows, i + 1, n);
    }
}

/// `Some(value)` unless it is the empty "no filter" text.
pub fn some_if_set(value: String) -> (r: Option<String>)
    ensures
        value@.len() == 0 ==> r is None,
        value@.len() > 0 ==> r == Some(value),
{
    if value.as_str().is_empty() {
        None
    } else {
        Some(value)
    }
}

/// The date portion of an RFC 3339 timestamp: the text before its first
/// `T`, or all of it.
pub open spec fn date_part_spec(timestamp: Seq<char>) -> Seq<char> {
    split_spec(timestamp, 'T')[0]
}

/// Turn an RFC 3339 timestamp into its `YYYY-MM-DD` date portion.
pub fn date_part(timestamp: &str) -> (r: String)
    ensures
        r@ == date_part_spec(timestamp@),
{
    let parts = split_char(timestamp, 'T');
    proof {
        crate::text::lemma_split_nonempty(timestamp@, 'T');
    }
    assert(string_texts(parts@)[0] == parts@[0]@);
    parts[0].clone()
}

/// The three-letter name of a two-digit month number.
pub open spec fn short_month(number: Seq<char>) -> Option<Seq<char>> {
    if number == "01"@ {
        Some("Jan"@)
    } else if number == "02"@ {
        Some("Feb"@)
    } else if number == "03"@ {
        Some("Mar"@)
    } else if number == "04"@ {
        Some("Apr"@)
    } else if number == "05"@ {
        Some("May"@)
    } else if number == "06"@ {
        Some("Jun"@)
    } else if number == "07"@ {
        Some("Jul"@)
    } else if number == "08"@ {
        Some("Aug"@)
    } else if number == "09"@ {
        Some("Sep"@)
    } else if number == "10"@ {
        Some("Oct"@)
    } else if number == "11"@ {
        Some("Nov"@)
    } else if number == "12"@ {
        Some("Dec"@)
    } else {
        None
    }
}

fn short_month_of(number: &str) -> (r: Option<&'static str>)
    ensures
        match short_month(number@) {
            None => r is None,
            Some(n) => r matches Some(x) && x@ == n,
        },
{
    if str_eq(number, "01") {
        Some("Jan")
    } else if str_eq(number, "02") {
        Some("Feb")
    } else if str_eq(number, "03") {
        Some("Mar")
    } else if str_eq(number, "04") {
        Some("Apr")
    } else if str_eq(number, "05") {
        Some("May")
    } else if str_eq(number, "06") {
        Some("Jun")
    } else if str_eq(number, "07") {
        Some("Jul")
    } else if str_eq(number, "08") {
        Some("Aug")
    } else if str_eq(number, "09") {
        Some("Sep")
    } else if str_eq(number, "10") {
        Some("Oct")
    } else if str_eq(number, "11") {
        Some("Nov")
    } else if str_eq(number, "12") {
        Some("Dec")
    } else {
        None
    }
}

/// What [`month_label`] shows: `"<Mon> <year>"` for `"<year>-<MM>"`, the
/// text unchanged otherwise.
pub open spec fn month_label_spec(month: Seq<char>) -> Seq<char> {
    match split_once_spec(month, '-') {
        None => month,
        Some(p) => match short_month(p.1) {
            None => month,
            Some(name) => name + " "@ + p.0,
        },
    }
}

/// `"2026-01"` to `"Jan 2026"`; the text unchanged for anything that does
/// not parse.
pub fn month_label(month: &str) -> (r: String)
    ensures
        r@ == month_label_spec(month@),
{
    match split_once(month, '-') {
        None => string_of(&chars_of(month)),
        Some((year, number)) => match short_month_of(number.as_str()) {
            None => string_of(&chars_of(month)),
            Some(name) => {
                let mut s = String::new();
                append(&mut s, name);
                append(&mut s, " ");
                append(&mut s, year.as_str());
                assert(s@ =~= month_label_spec(month@));
                s
            },
        },
    }
}

/// How a row's amount is signed on screen.
#[derive(Debug, Clone, Copy, PartialEq, Eq)]
pub enum RowSign {
    /// A transfer leg: `±` on the magnitude.
    Transfer,
    /// Money out: `−`.
    Negative,
    /// Money in: `+`, shown in the "money in" colour.
    Positive,
}

impl RowSign {
    /// The glyph shown before the magnitude.
    pub fn glyph(&self) -> (r: &'static str)
        ensures
            r@ == (match *self {
                RowSign::Transfer => "\u{00b1}\u{00a0}"@,
                RowSign::Negative => "\u{2212}"@,
                RowSign::Positive => "+"@,
            }),
    {
        match self {
            RowSign::Transfer => "\u{00b1}\u{00a0}",
            RowSign::Negative => "\u{2212}",
            RowSign::Positive => "+",
        }
    }

    /// The word read out to screen readers before the amount (none for a
    /// transfer).
    pub fn spoken(&self) -> (r: &'static str)
        ensures
            r@ == (match *self {
                RowSign::Transfer => ""@,
                RowSign::Negative => "negative "@,
                RowSign::Positive => "positive "@,
            }),
    {
        match self {
            RowSign::Transfer => "",
            RowSign::Negative => "negative ",
            RowSign::Positive => "positive ",
        }
    }
}

/// The texts a ledger row shows for one transaction.
pub struct RowDisplay {
    /// The primary line: the merchant, `"Transfer"`, or a dash.
    pub title: String,
    /// The avatar's initial; `None` for a transfer, which shows a glyph.
    pub initial: Option<String>,
    /// The sub-line: counterparty or account, then the account-currency
    /// value of a foreign transaction, joined with `" · "`.
    pub meta: String,
    /// The category pill.
    pub category: String,
    pub sign: RowSign,
    /// The unsigned amount, tidied by [`trim_amount`].
    pub magnitude: String,
    /// A foreign transaction still waiting for its conversion.
    pub pending: bool,
}

/// Whether a stored amount text is negative (starts with `-`).
pub open spec fn negative_text(a: Seq<char>) -> bool {
    a.len() > 0 && a[0] == '-'
}

/// A stored amount without its leading `-`.
pub open spec fn magnitude_text(a: Seq<char>) -> Seq<char> {
    if negative_text(a) {
        a.drop_first()
    } else {
        a
    }
}

/// `o`'s text, or `d` when absent.
pub open spec fn text_or(o: Option<String>, d: Seq<char>) -> Seq<char> {
    match o {
        Some(s) => s@,
        None => d,
    }
}

/// Whether the row is a transfer leg.
pub open spec fn transfer_row(t: TransactionDto) -> bool {
    t.transfer_id is Some
}

/// Whether the row is in a currency other than its account's.
pub open spec fn foreign_row(t: TransactionDto) -> bool {
    t.asset_id@ != t.account_default_asset_id@
}

/// The primary line of a row.
pub open spec fn row_title_spec(t: TransactionDto) -> Seq<char> {
    if transfer_row(t) {
        "Transfer"@
    } else {
        text_or(t.merchant_name, "\u{2014}"@)
    }
}

/// The avatar initial of a row: of the merchant, else the category; none
/// for a transfer.
pub open spec fn row_initial_spec(t: TransactionDto) -> Option<Seq<char>> {
    if transfer_row(t) {
        None
    } else {
        Some(
            first_initial_spec(
                match t.merchant_name {
                    Some(m) => m@,
                    None => text_or(t.category_name, Seq::empty()),
                },
            ),
        )
    }
}

/// The pieces of a row's sub-line, in order.
pub open spec fn row_meta_parts(t: TransactionDto, show_account: bool) -> Seq<Seq<char>> {
    let first: Seq<Seq<char>> = if transfer_row(t) {
        seq![
            (if negative_text(t.amount@) {
                "\u{2192}"@
            } else {
                "\u{2190}"@
            }) + " "@ + text_or(t.transfer_counterparty, "\u{2014}"@),
        ]
    } else if show_account {
        seq![t.account_name@]
    } else {
        Seq::empty()
    };
    let second: Seq<Seq<char>> = if foreign_row(t) {
        seq![
            match t.account_amount {
                Some(c) => trim_amount_spec(c@) + " "@ + t.account_currency_code@,
                None => "conversion pending"@,
            },
        ]
    } else {
        Seq::empty()
    };
    first + second
}

/// `parts` joined with `" · "`.
pub open spec fn join_dot(parts: Seq<Seq<char>>) -> Seq<char>
    decreases parts.len(),
{
    if parts.len() == 0 {
        Seq::empty()
    } else if parts.len() == 1 {
        parts[0]
    } else {
        join_dot(parts.drop_last()) + " \u{00b7} "@ + parts.last()
    }
}

/// The sub-line of a row.
pub open spec fn row_meta_spec(t: TransactionDto, show_account: bool) -> Seq<char> {
    join_dot(row_meta_parts(t, show_account))
}

/// How a row's amount is signed.
pub open spec fn sign_spec(t: TransactionDto) -> RowSign {
    if transfer_row(t) {
        RowSign::Transfer
    } else if negative_text(t.amount@) {
        RowSign::Negative
    } else {
        RowSign::Positive
    }
}

/// Whether a row waits for its conversion.
pub open spec fn pending_spec(t: TransactionDto) -> bool {
    foreign_row(t) && t.account_amount is None
}

/// A copy of a text.
fn copy_text(s: &str) -> (r: String)
    ensures
        r@ == s@,
{
    string_of(&chars_of(s))
}

/// The texts a ledger row shows for `t`; `show_account` when the ledger
/// spans several accounts.
pub fn row_display(t: &TransactionDto, show_account: bool) -> (r: RowDisplay)
    ensures
        r.title@ == row_title_spec(*t),
        opt_string_view(r.initial) == row_initial_spec(*t),
        r.meta@ == row_meta_spec(*t, show_account),
        r.category@ == text_or(t.category_name, "Uncategorized"@),
        r.sign == sign_spec(*t),
        r.magnitude@ == trim_amount_spec(magnitude_text(t.amount@)),
        r.pending == pending_spec(*t),
{
    let transfer = t.transfer_id.is_some();
    let amount = chars_of(t.amount.as_str());
    let negative = amount.len() > 0 && amount[0] == '-';
    let title = if transfer {
        copy_text("Transfer")
    } else {
        match &t.merchant_name {
            Some(m) => copy_text(m.as_str()),
            None => copy_text("\u{2014}"),
        }
    };
    let initial = if transfer {
        None
    } else {
        match &t.merchant_name {
            Some(m) => Some(first_initial(m.as_str())),
            None => match &t.category_name {
                Some(c) => Some(first_initial(c.as_str())),
                None => Some(first_initial("")),
            },
        }
    };
    proof {
        reveal_strlit("");
    }
    let ghost mut parts: Seq<Seq<char>> = Seq::empty();
    let mut meta = String::new();
    let mut count: usize = 0;
    if transfer {
        if negative {
            append(&mut meta, "\u{2192}");
        } else {
            append(&mut meta, "\u{2190}");
        }
        append(&mut meta, " ");
        match &t.transfer_counterparty {
            Some(c) => append(&mut meta, c.as_str()),
            None => append(&mut meta, "\u{2014}"),
        }
        proof {
            parts = seq![meta@];
        }
        assert(parts =~= row_meta_parts(*t, show_account).take(1));
        count = 1;
    } else if show_account {
        append(&mut meta, t.account_name.as_str());
        proof {
            parts = seq![meta@];
        }
        count = 1;
    }
    assert(meta@ =~= join_dot(parts));
    assert(parts =~= row_meta_parts(*t, show_account).take(count as int));
    assert(count == 1 <==> (transfer_row(*t) || show_account));
    let foreign = !str_eq(t.asset_id.as_str(), t.account_default_asset_id.as_str());
    let mut pending = false;
    if foreign {
        let ghost before = meta@;
        if count == 1 {
            append(&mut meta, " \u{00b7} ");
        }
        let ghost mid = meta@;
        match &t.account_amount {
            Some(c) => {
                let tidy = trim_amount(c.as_str());
                append(&mut meta, tidy.as_str());
                append(&mut meta, " ");
                append(&mut meta, t.account_currency_code.as_str());
                assert(meta@.subrange(mid.len() as int, meta@.len() as int) =~= trim_amount_spec(c@)
                    + " "@ + t.account_currency_code@);
            },
            None => {
                append(&mut meta, "conversion pending");
                pending = true;
                assert(meta@.subrange(mid.len() as int, meta@.len() as int) =~= "conversion pending"@);
            },
        }
        proof {
            let piece = meta@.subrange(mid.len() as int, meta@.len() as int);
            assert(meta@ =~= mid + piece);
            let np = parts.push(piece);
            assert(np.drop_last() =~= parts);
            if count == 1 {
                assert(meta@ =~= join_dot(parts) + " \u{00b7} "@ + piece);
            } else {
                assert(parts.len() == 0);
                assert(meta@ =~= piece);
            }
            parts = np;
        }
    }
    proof {
        if !foreign {
            assert(row_meta_parts(*t, show_account) =~= row_meta_parts(*t, show_account).take(
                count as int,
            ));
        }
        assert(parts =~= row_meta_parts(*t, show_account));
    }
    let category = match &t.category_name {
        Some(c) => copy_text(c.as_str()),
        None => copy_text("Uncategorized"),
    };
    let sign = if transfer {
        RowSign::Transfer
    } else if negative {
        RowSign::Negative
    } else {
        RowSign::Positive
    };
    let unsigned = if negative {
        crate::text::string_of_range(&amount, 1, amount.len())
    } else {
        string_of(&amount)
    };
    assert(negative ==> unsigned@ =~= t.amount@.drop_first());
    let magnitude = trim_amount(unsigned.as_str());
    RowDisplay { title, initial, meta, category, sign, magnitude, pending }
}

} // verus!
