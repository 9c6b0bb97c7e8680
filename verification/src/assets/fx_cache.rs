//! One base currency's rate table for one requested date, as the cache of
//! rate tables keeps it: the reference instant the table is anchored to and
//! a rate per quote currency.

use vstd::prelude::*;

use crate::assets::frankfurter::ReferenceRate;
use crate::decimal::Decimal;
use crate::text::str_eq;

verus! {

/// One base currency's quotes for one requested date. `as_of` is the
/// reference instant actually served (microseconds since the Unix epoch),
/// which becomes the valuation timestamp; no quote code occurs twice.
#[derive(Debug, Clone)]
pub struct CachedTable {
    pub as_of: i64,
    pub quotes: Vec<(String, Decimal)>,
}

/// The quote table the first `n` rows build: each row's rate under its quote
/// code, a later row replacing an earlier one with the same code.
pub open spec fn quotes_prefix(rows: Seq<ReferenceRate>, n: nat) -> Map<Seq<char>, Decimal>
    decreases n,
{
    if n == 0 {
        Map::empty()
    } else {
        quotes_prefix(rows, (n - 1) as nat).insert(rows[n - 1].quote_code@, rows[n - 1].rate)
    }
}

impl CachedTable {
    /// The quote table as a map from quote code to rate.
    pub open spec fn quote_map(self) -> Map<Seq<char>, Decimal> {
        Map::new(
            |k: Seq<char>| exists|j: int| 0 <= j < self.quotes@.len() && self.quotes@[j].0@ == k,
            |k: Seq<char>|
                self.quotes@[choose|j: int| 0 <= j < self.quotes@.len() && self.quotes@[j].0@ == k].1,
        )
    }

    /// No quote code occurs twice.
    pub open spec fn well_formed(self) -> bool {
        forall|i: int, j: int|
            0 <= i < j < self.quotes@.len() ==> self.quotes@[i].0@ != self.quotes@[j].0@
    }

    /// Build a table from a parsed response: every row shares one reference
    /// date, so the first row's instant is the table's `as_of`; an empty
    /// response yields no table.
    pub fn from_rows(rows: Vec<ReferenceRate>) -> (r: Option<CachedTable>)
        ensures
            rows@.len() == 0 ==> r is None,
            rows@.len() > 0 ==> (r matches Some(t) && t.well_formed() && t.as_of
                == rows@[0].observed_at && t.quote_map() == quotes_prefix(rows@, rows@.len())),
    {
        if rows.len() == 0 {
            return None;
        }
        let as_of = rows[0].observed_at;
        let mut table = CachedTable { as_of, quotes: Vec::new() };
        let mut i: usize = 0;
        assert(table.quote_map() =~= quotes_prefix(rows@, 0));
        while i < rows.len()
            invariant
                i <= rows@.len(),
                table.as_of == rows@[0].observed_at,
                rows@.len() > 0,
                table.well_formed(),
                table.quote_map() == quotes_prefix(rows@, i as nat),
            decreases rows.len() - i,
        {
            table.put(rows[i].quote_code.clone(), rows[i].rate.dup());
            i = i + 1;
        }
        Some(table)
    }

    /// Store `rate` under `code`, replacing any earlier rate for it.
    fn put(&mut self, code: String, rate: Decimal)
        requires
            old(self).well_formed(),
        ensures
            final(self).well_formed(),
            final(self).as_of == old(self).as_of,
            final(self).quote_map() == old(self).quote_map().insert(code@, rate),
    {
        let ghost before = self.quote_map();
        let mut j: usize = 0;
        while j < self.quotes.len()
            invariant
                j <= self.quotes@.len(),
                self.well_formed(),
                self.quote_map() == before,
                before == old(self).quote_map(),
                self.as_of == old(self).as_of,
                forall|k: int| 0 <= k < j ==> self.quotes@[k].0@ != code@,
            decreases self.quotes.len() - j,
        {
            if str_eq(self.quotes[j].0.as_str(), code.as_str()) {
                let ghost old_quotes = self.quotes@;
                let key = self.quotes[j].0.clone();
                self.quotes.set(j, (key, rate));
                proof {
                    assert forall|a: int, b: int|
                        0 <= a < b < self.quotes@.len() implies self.quotes@[a].0@
                        != self.quotes@[b].0@ by {
                        assert(self.quotes@[a].0@ == old_quotes[a].0@);
                        assert(self.quotes@[b].0@ == old_quotes[b].0@);
                    }
                    assert forall|k: Seq<char>| #[trigger]
                        self.quote_map().contains_key(k) == before.insert(code@, rate).contains_key(k)
                        by {
                        if before.insert(code@, rate).contains_key(k) {
                            if k == code@ {
                                assert(self.quotes@[j as int].0@ == k);
                            } else {
                                let w = choose|x: int|
                                    0 <= x < old_quotes.len() && old_quotes[x].0@ == k;
                                assert(self.quotes@[w].0@ == k);
                            }
                        }
                        if self.quote_map().contains_key(k) {
                            let w = choose|x: int|
                                0 <= x < self.quotes@.len() && self.quotes@[x].0@ == k;
                            assert(old_quotes[w].0@ == k);
                        }
                    }
                    assert forall|k: Seq<char>| #[trigger]
                        self.quote_map().contains_key(k) implies self.quote_map()[k] == before.insert(
                        code@,
                        rate,
                    )[k] by {
                        let w = choose|x: int|
                            0 <= x < self.quotes@.len() && self.quotes@[x].0@ == k;
                        if k == code@ {
                            assert(w == j);
                        } else {
                            let w0 = choose|x: int|
                                0 <= x < old_quotes.len() && old_quotes[x].0@ == k;
                            assert(old_quotes[w].0@ == k);
                            assert(w == w0);
                        }
                    }
                    assert(self.quote_map() =~= before.insert(code@, rate));
                }
                return;
            }
            j = j + 1;
        }
        let ghost old_quotes = self.quotes@;
        self.quotes.push((code, rate));
        proof {
            let n = old_quotes.len();
            assert forall|k: Seq<char>| #[trigger]
                self.quote_map().contains_key(k) == before.insert(code@, rate).contains_key(k) by {
                if before.insert(code@, rate).contains_key(k) {
                    if k == code@ {
                        assert(self.quotes@[n as int].0@ == k);
                    } else {
                        let w = choose|x: int| 0 <= x < old_quotes.len() && old_quotes[x].0@ == k;
                        assert(self.quotes@[w].0@ == k);
                    }
                }
                if self.quote_map().contains_key(k) {
                    let w = choose|x: int| 0 <= x < self.quotes@.len() && self.quotes@[x].0@ == k;
                    if w < n {
                        assert(old_quotes[w].0@ == k);
                    }
                }
            }
            assert forall|k: Seq<char>| #[trigger]
                self.quote_map().contains_key(k) implies self.quote_map()[k] == before.insert(
                code@,
                rate,
            )[k] by {
                let w = choose|x: int| 0 <= x < self.quotes@.len() && self.quotes@[x].0@ == k;
                if k == code@ {
                    assert(w == n);
                } else {
                    let w0 = choose|x: int| 0 <= x < old_quotes.len() && old_quotes[x].0@ == k;
                    assert(w < n);
                    assert(old_quotes[w].0@ == k);
                    assert(w == w0);
                }
            }
            assert(self.quote_map() =~= before.insert(code@, rate));
        }
    }

    /// The rate for `quote_code`, with the instant the table is anchored to.
    pub fn lookup(&self, quote_code: &str) -> (r: Option<(Decimal, i64)>)
        requires
            self.well_formed(),
        ensures
            self.quote_map().contains_key(quote_code@) ==> r == Some(
                (self.quote_map()[quote_code@], self.as_of),
            ),
            !self.quote_map().contains_key(quote_code@) ==> r is None,
    {
        let mut j: usize = 0;
        while j < self.quotes.len()
            invariant
                j <= self.quotes@.len(),
                self.well_formed(),
                forall|k: int| 0 <= k < j ==> self.quotes@[k].0@ != quote_code@,
            decreases self.quotes.len() - j,
        {
            if str_eq(self.quotes[j].0.as_str(), quote_code) {
                proof {
                    let w = choose|x: int|
                        0 <= x < self.quotes@.len() && self.quotes@[x].0@ == quote_code@;
                    assert(self.quotes@[j as int].0@ == quote_code@);
                    assert(w == j);
                }
                return Some((self.quotes[j].1.dup(), self.as_of));
            }
            j = j + 1;
        }
        None
    }
}

} // verus!
