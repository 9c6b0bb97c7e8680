//! Calendar dates (proleptic Gregorian, the range `chrono::NaiveDate`
//! supports): validity, day and month stepping, ordering, the ISO weekday,
//! and the `YYYY-MM-DD` text form.

use vstd::prelude::*;

use chrono::Datelike;

verus! {

/// The earliest year a date may have.
pub const MIN_YEAR: i32 = -262143;

/// The latest year a date may have.
pub const MAX_YEAR: i32 = 262142;

/// Gregorian leap-year rule.
pub open spec fn is_leap(y: int) -> bool {
    (y % 4 == 0 && y % 100 != 0) || y % 400 == 0
}

/// Days in month `m` of year `y`.
pub open spec fn days_in_month(y: int, m: int) -> int {
    if m == 2 {
        if is_leap(y) {
            29
        } else {
            28
        }
    } else if m == 4 || m == 6 || m == 9 || m == 11 {
        30
    } else {
        31
    }
}

/// Whether `(y, m, d)` names a representable calendar day.
pub open spec fn valid_ymd(y: int, m: int, d: int) -> bool {
    &&& MIN_YEAR <= y <= MAX_YEAR
    &&& 1 <= m <= 12
    &&& 1 <= d <= days_in_month(y, m)
}

/// A calendar day.
#[derive(Debug, Clone, Copy, PartialEq, Eq, Hash)]
pub struct Date {
    pub year: i32,
    pub month: u32,
    pub day: u32,
}

impl Date {
    /// Whether this is a representable calendar day.
    pub open spec fn valid(self) -> bool {
        valid_ymd(self.year as int, self.month as int, self.day as int)
    }

    /// Strict chronological order.
    pub open spec fn before(self, other: Date) -> bool {
        ||| self.year < other.year
        ||| self.year == other.year && self.month < other.month
        ||| self.year == other.year && self.month == other.month && self.day < other.day
    }

    /// The same day as `other`.
    pub open spec fn same(self, other: Date) -> bool {
        self.year == other.year && self.month == other.month && self.day == other.day
    }
}

/// `from_ymd_opt`: the date `(y, m, d)` when it exists.
pub open spec fn from_ymd_spec(y: int, m: int, d: int) -> Option<Date> {
    if valid_ymd(y, m, d) {
        Some(Date { year: y as i32, month: m as u32, day: d as u32 })
    } else {
        None
    }
}

/// The day before `d`, when it is representable.
pub open spec fn pred_spec(d: Date) -> Option<Date> {
    if d.day > 1 {
        Some(Date { year: d.year, month: d.month, day: (d.day - 1) as u32 })
    } else if d.month > 1 {
        Some(
            Date {
                year: d.year,
                month: (d.month - 1) as u32,
                day: days_in_month(d.year as int, d.month - 1) as u32,
            },
        )
    } else if d.year > MIN_YEAR {
        Some(Date { year: (d.year - 1) as i32, month: 12, day: 31 })
    } else {
        None
    }
}

/// The day after `d`, when it is representable.
pub open spec fn succ_spec(d: Date) -> Option<Date> {
    if d.day < days_in_month(d.year as int, d.month as int) {
        Some(Date { year: d.year, month: d.month, day: (d.day + 1) as u32 })
    } else if d.month < 12 {
        Some(Date { year: d.year, month: (d.month + 1) as u32, day: 1 })
    } else if d.year < MAX_YEAR {
        Some(Date { year: (d.year + 1) as i32, month: 1, day: 1 })
    } else {
        None
    }
}

/// `d` stepped back `n` days (each step as [`pred_spec`]).
pub open spec fn days_back(d: Date, n: nat) -> Option<Date>
    decreases n,
{
    if n == 0 {
        Some(d)
    } else {
        match days_back(d, (n - 1) as nat) {
            None => None,
            Some(e) => pred_spec(e),
        }
    }
}

/// `(year, month)` stepped back `n` months.
pub open spec fn months_before_spec(y: int, m: int, n: int) -> (int, int) {
    let z = y * 12 + m - 1 - n;
    (z / 12, z % 12 + 1)
}

/// Days since 1970-01-01 of the civil date `(y, m, d)`.
pub open spec fn days_from_civil(y: int, m: int, d: int) -> int {
    let yp = if m <= 2 {
        y - 1
    } else {
        y
    };
    let era = yp / 400;
    let yoe = yp % 400;
    let mp = if m > 2 {
        m - 3
    } else {
        m + 9
    };
    let doy = (153 * mp + 2) / 5 + d - 1;
    let doe = yoe * 365 + yoe / 4 - yoe / 100 + doy;
    era * 146097 + doe - 719468
}

/// ISO weekday of `d`: 1 = Monday, ..., 7 = Sunday.
pub open spec fn weekday_spec(d: Date) -> int {
    (days_from_civil(d.year as int, d.month as int, d.day as int) + 3) % 7 + 1
}

/// The character for digit `n` (`0..=9`).
pub open spec fn digit_char(n: int) -> char {
    if n == 0 {
        '0'
    } else if n == 1 {
        '1'
    } else if n == 2 {
        '2'
    } else if n == 3 {
        '3'
    } else if n == 4 {
        '4'
    } else if n == 5 {
        '5'
    } else if n == 6 {
        '6'
    } else if n == 7 {
        '7'
    } else if n == 8 {
        '8'
    } else {
        '9'
    }
}

/// The value of a digit character, or `None` for any other character.
pub open spec fn digit_value(c: char) -> Option<int> {
    if '0' <= c && c <= '9' {
        Some((c as int) - ('0' as int))
    } else {
        None
    }
}

/// The decimal digits of `n` (no padding).
pub open spec fn nat_digits(n: nat) -> Seq<char>
    decreases n,
{
    if n < 10 {
        seq![digit_char(n as int)]
    } else {
        nat_digits(n / 10).push(digit_char((n % 10) as int))
    }
}

/// `s` left-padded with `'0'` to at least `w` characters.
pub open spec fn pad_zeros(s: Seq<char>, w: nat) -> Seq<char> {
    if s.len() >= w {
        s
    } else {
        Seq::new((w - s.len()) as nat, |i: int| '0') + s
    }
}

/// Two zero-padded digits of `n` (`0..=99`).
pub open spec fn two_digits(n: int) -> Seq<char> {
    seq![digit_char(n / 10), digit_char(n % 10)]
}

/// Four zero-padded digits of `n` (`0..=9999`).
pub open spec fn four_digits(n: int) -> Seq<char> {
    seq![digit_char(n / 1000), digit_char((n / 100) % 10), digit_char((n / 10) % 10), digit_char(n % 10)]
}

/// The year as `chrono` prints it: four digits for `0..=9999`, otherwise a
/// sign and at least four digits.
pub open spec fn year_text(y: int) -> Seq<char> {
    if 0 <= y <= 9999 {
        four_digits(y)
    } else if y < 0 {
        seq!['-'] + pad_zeros(nat_digits((-y) as nat), 4)
    } else {
        seq!['+'] + pad_zeros(nat_digits(y as nat), 4)
    }
}

/// `YYYY-MM-DD`, the text `chrono` displays a date as.
pub open spec fn iso_spec(d: Date) -> Seq<char> {
    year_text(d.year as int) + seq!['-'] + two_digits(d.month as int) + seq!['-'] + two_digits(
        d.day as int,
    )
}

/// The date a canonical `YYYY-MM-DD` text (four-digit year, two-digit month
/// and day) names, when it names one.
pub open spec fn iso_inverse(s: Seq<char>) -> Option<Date> {
    if s.len() == 10 && s[4] == '-' && s[7] == '-' && digit_value(s[0]) is Some && digit_value(
        s[1],
    ) is Some && digit_value(s[2]) is Some && digit_value(s[3]) is Some && digit_value(s[5]) is Some
        && digit_value(s[6]) is Some && digit_value(s[8]) is Some && digit_value(s[9]) is Some {
        let y = 1000 * digit_value(s[0])->0 + 100 * digit_value(s[1])->0 + 10 * digit_value(
            s[2],
        )->0 + digit_value(s[3])->0;
        let m = 10 * digit_value(s[5])->0 + digit_value(s[6])->0;
        let d = 10 * digit_value(s[8])->0 + digit_value(s[9])->0;
        from_ymd_spec(y, m, d)
    } else {
        None
    }
}

/// The `(year, month, day)` `chrono` parses `s` into with the format
/// `%Y-%m-%d`, or `None` when it rejects it.
pub uninterp spec fn chrono_parse_ymd(s: Seq<char>) -> Option<(int, int, int)>;

/// `(x + d·k) / d == x / d + k` and `(x + d·k) % d == x % d`.
pub proof fn lemma_div_offset(x: int, d: int, k: int)
    requires
        d > 0,
    ensures
        (x + d * k) / d == x / d + k,
        (x + d * k) % d == x % d,
{
    vstd::arithmetic::div_mod::lemma_fundamental_div_mod(x, d);
    let q = x / d;
    let r = x % d;
    assert(x + d * k == (q + k) * d + r) by (nonlinear_arith)
        requires
            x == d * q + r,
    ;
    vstd::arithmetic::div_mod::lemma_fundamental_div_mod_converse(x + d * k, d, q + k, r);
}

/// Whether `y` is a leap year.
pub fn is_leap_year(y: i32) -> (b: bool)
    requires
        MIN_YEAR <= y <= MAX_YEAR,
    ensures
        b == is_leap(y as int),
{
    let u: u64 = (y as i64 + 400000) as u64;
    proof {
        lemma_div_offset(y as int, 4, 100000);
        lemma_div_offset(y as int, 100, 4000);
        lemma_div_offset(y as int, 400, 1000);
    }
    (u % 4 == 0 && u % 100 != 0) || u % 400 == 0
}

/// Days in month `m` of year `y`.
pub fn month_days(y: i32, m: u32) -> (n: u32)
    requires
        MIN_YEAR <= y <= MAX_YEAR,
    ensures
        n == days_in_month(y as int, m as int),
{
    if m == 2 {
        if is_leap_year(y) {
            29
        } else {
            28
        }
    } else if m == 4 || m == 6 || m == 9 || m == 11 {
        30
    } else {
        31
    }
}

impl Date {
    /// `NaiveDate::from_ymd_opt`: the date when `(year, month, day)` exists.
    pub fn from_ymd(year: i32, month: u32, day: u32) -> (r: Option<Date>)
        ensures
            r == from_ymd_spec(year as int, month as int, day as int),
    {
        if year < MIN_YEAR || year > MAX_YEAR || month < 1 || month > 12 || day < 1 {
            return None;
        }
        if day > month_days(year, month) {
            return None;
        }
        Some(Date { year, month, day })
    }

    /// The day before, when it is representable.
    pub fn pred(&self) -> (r: Option<Date>)
        requires
            self.valid(),
        ensures
            r == pred_spec(*self),
            r matches Some(p) ==> p.valid(),
    {
        if self.day > 1 {
            Some(Date { year: self.year, month: self.month, day: self.day - 1 })
        } else if self.month > 1 {
            Some(
                Date {
                    year: self.year,
                    month: self.month - 1,
                    day: month_days(self.year, self.month - 1),
                },
            )
        } else if self.year > MIN_YEAR {
            Some(Date { year: self.year - 1, month: 12, day: 31 })
        } else {
            None
        }
    }

    /// The day after, when it is representable.
    pub fn succ(&self) -> (r: Option<Date>)
        requires
            self.valid(),
        ensures
            r == succ_spec(*self),
            r matches Some(p) ==> p.valid(),
    {
        if self.day < month_days(self.year, self.month) {
            Some(Date { year: self.year, month: self.month, day: self.day + 1 })
        } else if self.month < 12 {
            Some(Date { year: self.year, month: self.month + 1, day: 1 })
        } else if self.year < MAX_YEAR {
            Some(Date { year: self.year + 1, month: 1, day: 1 })
        } else {
            None
        }
    }

    /// The first day of this date's month.
    pub fn first_of_month(&self) -> (r: Date)
        requires
            self.valid(),
        ensures
            r.valid(),
            r == (Date { year: self.year, month: self.month, day: 1 }),
    {
        Date { year: self.year, month: self.month, day: 1 }
    }

    /// Whether `self` is strictly before `other`.
    pub fn is_before(&self, other: &Date) -> (b: bool)
        ensures
            b == self.before(*other),
    {
        self.year < other.year || (self.year == other.year && self.month < other.month) || (
        self.year == other.year && self.month == other.month && self.day < other.day)
    }

    /// Whether `self` and `other` are the same day.
    pub fn is_same(&self, other: &Date) -> (b: bool)
        ensures
            b == self.same(*other),
            b == (*self == *other),
    {
        self.year == other.year && self.month == other.month && self.day == other.day
    }

    /// `self` stepped back `n` days.
    pub fn back(&self, n: u32) -> (r: Option<Date>)
        requires
            self.valid(),
        ensures
            r == days_back(*self, n as nat),
            r matches Some(p) ==> p.valid(),
    {
        let mut d = *self;
        let mut i: u32 = 0;
        while i < n
            invariant
                i <= n,
                d.valid(),
                days_back(*self, i as nat) == Some(d),
            decreases n - i,
        {
            match d.pred() {
                Some(p) => {
                    d = p;
                    i = i + 1;
                },
                None => {
                    proof {
                        lemma_days_back_none(*self, (i + 1) as nat, n as nat);
                    }
                    return None;
                },
            }
        }
        Some(d)
    }

    /// ISO weekday: 1 = Monday, ..., 7 = Sunday.
    pub fn iso_weekday(&self) -> (w: u32)
        requires
            self.valid(),
        ensures
            w == weekday_spec(*self),
            1 <= w <= 7,
    {
        let days = civil_days(self.year, self.month, self.day);
        let shifted: u64 = (days + 3 + 7 * 100000000) as u64;
        proof {
            lemma_div_offset(days + 3, 7, 100000000);
        }
        (shifted % 7) as u32 + 1
    }
}

proof fn lemma_days_back_none(d: Date, i: nat, n: nat)
    requires
        days_back(d, i) is None,
        i <= n,
    ensures
        days_back(d, n) is None,
    decreases n - i,
{
    if i < n {
        lemma_days_back_none(d, i + 1, n);
    }
}

/// Days since 1970-01-01 of the civil date `(y, m, d)`.
pub fn civil_days(y: i32, m: u32, d: u32) -> (r: i64)
    requires
        valid_ymd(y as int, m as int, d as int),
    ensures
        r == days_from_civil(y as int, m as int, d as int),
{
    let yp: i64 = if m <= 2 {
        y as i64 - 1
    } else {
        y as i64
    };
    let off: i64 = yp + 400 * 1000;
    proof {
        lemma_div_offset(yp as int, 400, 1000);
    }
    let era: i64 = off / 400 - 1000;
    let yoe: i64 = off % 400;
    let mp: i64 = if m > 2 {
        m as i64 - 3
    } else {
        m as i64 + 9
    };
    let doy: i64 = (153 * mp + 2) / 5 + d as i64 - 1;
    let doe: i64 = yoe * 365 + yoe / 4 - yoe / 100 + doy;
    era * 146097 + doe - 719468
}

/// `(year, month)` stepped back `n` months, for any `n` whose month count
/// (`year × 12 + month - 1 - n`) fits an `i32`.
pub fn months_before(year: i32, month: u32, n: u32) -> (r: (i32, u32))
    requires
        1 <= month <= 12,
        n <= i32::MAX,
        i32::MIN <= year * 12 + month - 1 <= i32::MAX,
        i32::MIN <= year * 12 + month - 1 - n <= i32::MAX,
    ensures
        (r.0 as int, r.1 as int) == months_before_spec(year as int, month as int, n as int),
        1 <= r.1 <= 12,
        MIN_YEAR <= year <= MAX_YEAR && n <= 12 ==> MIN_YEAR - 1 <= r.0 <= MAX_YEAR,
{
    let z: i64 = year as i64 * 12 + month as i64 - 1 - n as i64;
    let off: i64 = z + 12 * 200000000;
    proof {
        lemma_div_offset(z as int, 12, 200000000);
    }
    let q: i64 = off / 12 - 200000000;
    let r: i64 = off % 12;
    (q as i32, (r + 1) as u32)
}

/// The character for digit `n`.
fn digit(n: u32) -> (c: char)
    requires
        n <= 9,
    ensures
        c == digit_char(n as int),
{
    if n == 0 {
        '0'
    } else if n == 1 {
        '1'
    } else if n == 2 {
        '2'
    } else if n == 3 {
        '3'
    } else if n == 4 {
        '4'
    } else if n == 5 {
        '5'
    } else if n == 6 {
        '6'
    } else if n == 7 {
        '7'
    } else if n == 8 {
        '8'
    } else {
        '9'
    }
}

/// The decimal digits of `n`.
pub fn nat_text(n: u64) -> (v: Vec<char>)
    ensures
        v@ == nat_digits(n as nat),
    decreases n,
{
    if n < 10 {
        let mut v = Vec::new();
        v.push(digit(n as u32));
        v
    } else {
        let mut v = nat_text(n / 10);
        v.push(digit((n % 10) as u32));
        v
    }
}

/// `v` left-padded with `'0'` to at least `w` characters.
fn pad_text(v: Vec<char>, w: usize) -> (r: Vec<char>)
    ensures
        r@ == pad_zeros(v@, w as nat),
{
    if v.len() >= w {
        return v;
    }
    let k = w - v.len();
    let mut r: Vec<char> = Vec::new();
    let mut i: usize = 0;
    while i < k
        invariant
            i <= k,
            r@ == Seq::new(i as nat, |j: int| '0'),
        decreases k - i,
    {
        r.push('0');
        i = i + 1;
        assert(r@ =~= Seq::new(i as nat, |j: int| '0'));
    }
    let mut j: usize = 0;
    while j < v.len()
        invariant
            j <= v.len(),
            r@ == Seq::new(k as nat, |x: int| '0') + v@.take(j as int),
        decreases v.len() - j,
    {
        r.push(v[j]);
        j = j + 1;
        assert(r@ =~= Seq::new(k as nat, |x: int| '0') + v@.take(j as int));
    }
    assert(v@.take(v.len() as int) =~= v@);
    r
}

impl Date {
    /// The `YYYY-MM-DD` text of this date, as `chrono` displays it.
    pub fn iso_text(&self) -> (s: String)
        requires
            self.valid(),
        ensures
            s@ == iso_spec(*self),
    {
        let mut v: Vec<char> = Vec::new();
        let y = self.year;
        if 0 <= y && y <= 9999 {
            let u = y as u32;
            v.push(digit(u / 1000));
            v.push(digit((u / 100) % 10));
            v.push(digit((u / 10) % 10));
            v.push(digit(u % 10));
        } else if y < 0 {
            v.push('-');
            let mag = pad_text(nat_text((-(y as i64)) as u64), 4);
            let mut i: usize = 0;
            while i < mag.len()
                invariant
                    i <= mag.len(),
                    v@ == seq!['-'] + mag@.take(i as int),
                decreases mag.len() - i,
            {
                v.push(mag[i]);
                i = i + 1;
                assert(v@ =~= seq!['-'] + mag@.take(i as int));
            }
            assert(mag@.take(mag.len() as int) =~= mag@);
        } else {
            v.push('+');
            let mag = pad_text(nat_text(y as u64), 4);
            let mut i: usize = 0;
            while i < mag.len()
                invariant
                    i <= mag.len(),
                    v@ == seq!['+'] + mag@.take(i as int),
                decreases mag.len() - i,
            {
                v.push(mag[i]);
                i = i + 1;
                assert(v@ =~= seq!['+'] + mag@.take(i as int));
            }
            assert(mag@.take(mag.len() as int) =~= mag@);
        }
        let ghost yv = v@;
        assert(yv == year_text(y as int));
        v.push('-');
        v.push(digit(self.month / 10));
        v.push(digit(self.month % 10));
        v.push('-');
        v.push(digit(self.day / 10));
        v.push(digit(self.day % 10));
        assert(v@ =~= iso_spec(*self));
        crate::text::string_of(&v)
    }

    /// Parse `s` as `chrono` parses the format `%Y-%m-%d`.
    pub fn parse_iso(s: &str) -> (r: Option<Date>)
        ensures
            r matches Some(d) ==> d.valid() && chrono_parse_ymd(s@) == Some(
                (d.year as int, d.month as int, d.day as int),
            ),
            r is None ==> chrono_parse_ymd(s@) is None,
            iso_inverse(s@) is Some ==> r == iso_inverse(s@),
    {
        match chrono_parse_iso(s) {
            Some((y, m, d)) => Some(Date { year: y, month: m, day: d }),
            None => None,
        }
    }
}

/// Whether `chrono` can represent the instant `micros` (microseconds since
/// the Unix epoch): its UTC day lies between `NaiveDate::MIN`
/// (`MIN_YEAR`-01-01) and `NaiveDate::MAX` (`MAX_YEAR`-12-31).
pub open spec fn chrono_instant(micros: int) -> bool {
    days_from_civil(MIN_YEAR as int, 1, 1) <= micros / 86_400_000_000 <= days_from_civil(
        MAX_YEAR as int,
        12,
        31,
    )
}

/// `chrono::DateTime::from_timestamp_micros(micros)` then `date_naive()`:
/// the UTC calendar day of an instant given in microseconds since the Unix
/// epoch, whose day count since 1970-01-01 is the floor of `micros` over a
/// day's microseconds. `chrono` splits `micros` into whole seconds and a
/// sub-second part (always valid) and returns `None` exactly when that day
/// falls outside `NaiveDate::MIN ..= NaiveDate::MAX`.
#[verifier::external_body]
pub(crate) fn utc_date_of(micros: i64) -> (r: Option<Date>)
    ensures
        r is Some <==> chrono_instant(micros as int),
        r matches Some(d) ==> d.valid() && days_from_civil(d.year as int, d.month as int, d.day as int)
            == micros as int / 86_400_000_000,
{
    let date = chrono::DateTime::from_timestamp_micros(micros)?.date_naive();
    Some(Date { year: date.year(), month: date.month(), day: date.day() })
}

/// `NaiveDate::parse_from_str(s, "%Y-%m-%d")`, as `(year, month, day)`.
/// `chrono` only ever returns an existing date, and it reads a canonical
/// four-digit-year `YYYY-MM-DD` text as exactly the date it spells.
#[verifier::external_body]
fn chrono_parse_iso(s: &str) -> (r: Option<(i32, u32, u32)>)
    ensures
        r matches Some(p) ==> valid_ymd(p.0 as int, p.1 as int, p.2 as int) && chrono_parse_ymd(
            s@,
        ) == Some((p.0 as int, p.1 as int, p.2 as int)),
        r is None ==> chrono_parse_ymd(s@) is None,
        iso_inverse(s@) matches Some(d) ==> r == Some((d.year, d.month, d.day)),
{
    let date = chrono::NaiveDate::parse_from_str(s, "%Y-%m-%d").ok()?;
    Some((date.year(), date.month(), date.day()))
}

proof fn lemma_digit_round_trip(n: int)
    requires
        0 <= n <= 9,
    ensures
        digit_value(digit_char(n)) == Some(n),
{
}

proof fn lemma_four_digits(y: int)
    requires
        0 <= y <= 9999,
    ensures
        0 <= y / 1000 <= 9,
        0 <= (y / 100) % 10 <= 9,
        0 <= (y / 10) % 10 <= 9,
        0 <= y % 10 <= 9,
        1000 * (y / 1000) + 100 * ((y / 100) % 10) + 10 * ((y / 10) % 10) + y % 10 == y,
{
    let a = y / 1000;
    let r = y % 1000;
    let b = r / 100;
    let r2 = r % 100;
    let c = r2 / 10;
    let d = r2 % 10;
    assert(y == 1000 * a + r && 0 <= r < 1000);
    assert(r == 100 * b + r2 && 0 <= r2 < 100);
    assert(r2 == 10 * c + d && 0 <= d < 10);
    assert(y / 100 == 10 * a + b);
    assert((y / 100) % 10 == b);
    assert(y / 10 == 100 * a + 10 * b + c);
    assert((y / 10) % 10 == c);
    assert(y % 10 == d);
}

proof fn lemma_two_digits(n: int)
    requires
        0 <= n <= 99,
    ensures
        0 <= n / 10 <= 9,
        0 <= n % 10 <= 9,
        10 * (n / 10) + n % 10 == n,
{
}

/// Reading back the `YYYY-MM-DD` text of a date with a four-digit year gives
/// the date.
pub proof fn lemma_iso_round_trip(d: Date)
    requires
        d.valid(),
        0 <= d.year <= 9999,
    ensures
        iso_inverse(iso_spec(d)) == Some(d),
{
    let y = d.year as int;
    let m = d.month as int;
    let dd = d.day as int;
    lemma_four_digits(y);
    lemma_two_digits(m);
    lemma_two_digits(dd);
    let s = iso_spec(d);
    assert(s =~= seq![
        digit_char(y / 1000),
        digit_char((y / 100) % 10),
        digit_char((y / 10) % 10),
        digit_char(y % 10),
        '-',
        digit_char(m / 10),
        digit_char(m % 10),
        '-',
        digit_char(dd / 10),
        digit_char(dd % 10),
    ]);
    lemma_digit_round_trip(y / 1000);
    lemma_digit_round_trip((y / 100) % 10);
    lemma_digit_round_trip((y / 10) % 10);
    lemma_digit_round_trip(y % 10);
    lemma_digit_round_trip(m / 10);
    lemma_digit_round_trip(m % 10);
    lemma_digit_round_trip(dd / 10);
    lemma_digit_round_trip(dd % 10);
    assert(digit_value(s[0]) == Some(y / 1000));
    assert(digit_value(s[1]) == Some((y / 100) % 10));
    assert(digit_value(s[2]) == Some((y / 10) % 10));
    assert(digit_value(s[3]) == Some(y % 10));
    assert(digit_value(s[5]) == Some(m / 10));
    assert(digit_value(s[6]) == Some(m % 10));
    assert(digit_value(s[8]) == Some(dd / 10));
    assert(digit_value(s[9]) == Some(dd % 10));
}

/// Stepping a day forward and then back, or back and then forward, returns
/// to the same day.
pub proof fn lemma_succ_pred_inverse(d: Date)
    requires
        d.valid(),
    ensures
        succ_spec(d) matches Some(s) ==> pred_spec(s) == Some(d),
        pred_spec(d) matches Some(p) ==> succ_spec(p) == Some(d),
{
}

/// The day after `d` is one day later in the count of days since the epoch.
pub proof fn lemma_succ_is_next_day(d: Date)
    requires
        d.valid(),
    ensures
        succ_spec(d) matches Some(s) ==> days_from_civil(s.year as int, s.month as int, s.day as int)
            == days_from_civil(d.year as int, d.month as int, d.day as int) + 1,
{
    let y = d.year as int;
    let m = d.month as int;
    if m == 2 && d.day as int == days_in_month(y, 2) {
        let yp = y - 1;
        let era = yp / 400;
        let yoe = yp % 400;
        let era2 = y / 400;
        let yoe2 = y % 400;
        assert(yoe == 399 ==> era2 == era + 1 && yoe2 == 0);
        assert(yoe < 399 ==> era2 == era && yoe2 == yoe + 1);
        assert(is_leap(y) <==> (yoe2 % 4 == 0 && yoe2 % 100 != 0) || yoe2 == 0);
    }
}

/// The day before `d` is one day earlier in the count of days since the
/// epoch.
pub proof fn lemma_pred_is_previous_day(d: Date)
    requires
        d.valid(),
    ensures
        pred_spec(d) matches Some(p) ==> days_from_civil(p.year as int, p.month as int, p.day as int)
            == days_from_civil(d.year as int, d.month as int, d.day as int) - 1,
{
    lemma_succ_pred_inverse(d);
    if let Some(p) = pred_spec(d) {
        lemma_succ_is_next_day(p);
    }
}

/// Stepping back `n` days lands `n` days earlier in the count of days since
/// the epoch, on a valid day.
pub proof fn lemma_days_back_count(d: Date, n: nat)
    requires
        d.valid(),
    ensures
        days_back(d, n) matches Some(e) ==> e.valid() && days_from_civil(
            e.year as int,
            e.month as int,
            e.day as int,
        ) == days_from_civil(d.year as int, d.month as int, d.day as int) - n,
    decreases n,
{
    if n > 0 {
        lemma_days_back_count(d, (n - 1) as nat);
        if let Some(e) = days_back(d, (n - 1) as nat) {
            lemma_pred_is_previous_day(e);
        }
    }
}

} // verus!
