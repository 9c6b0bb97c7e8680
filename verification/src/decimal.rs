//! Exact decimal numbers.
//!
//! A [`Decimal`] is `mantissa × 10^(-scale)`, the same representation the
//! `bigdecimal` crate uses: an `i64` scale and a mantissa of any size, held
//! as a sign and a list of base-2^32 limbs, least significant first.
//! Sign tests, negation and copying are computed here; addition, value
//! equality, multiplication with rounding, reciprocals, quotients,
//! normalisation, digit counts, parsing and display are delegated to
//! `bigdecimal`, whose results are brought back into the same
//! representation.

use vstd::prelude::*;

use bigdecimal::num_bigint::{BigInt, Sign};
use bigdecimal::BigDecimal;
use std::num::NonZeroU64;
use std::str::FromStr;

verus! {

/// `10^n`.
pub open spec fn pow10(n: nat) -> int
    decreases n,
{
    if n == 0 {
        1
    } else {
        10 * pow10((n - 1) as nat)
    }
}

/// Whether `x` is representable as an `i64`.
pub open spec fn fits_i64(x: int) -> bool {
    i64::MIN <= x <= i64::MAX
}

/// How a value is rounded to a given number of fractional digits (the
/// variants of `bigdecimal::RoundingMode`).
#[derive(Debug, Clone, Copy, PartialEq, Eq)]
pub enum Rounding {
    /// Away from zero.
    Up,
    /// Towards zero.
    Down,
    /// Towards positive infinity.
    Ceiling,
    /// Towards negative infinity.
    Floor,
    /// To the nearest; ties away from zero.
    HalfUp,
    /// To the nearest; ties towards zero.
    HalfDown,
    /// To the nearest; ties to the even neighbour (banker's rounding).
    HalfEven,
}

/// `n / d` rounded to an integer with `mode` (`d > 0`).
pub open spec fn round_div(n: int, d: int, mode: Rounding) -> int {
    let q = n / d;
    let r = n % d;
    if r == 0 {
        q
    } else {
        match mode {
            Rounding::Floor => q,
            Rounding::Ceiling => q + 1,
            Rounding::Down => if n >= 0 {
                q
            } else {
                q + 1
            },
            Rounding::Up => if n >= 0 {
                q + 1
            } else {
                q
            },
            Rounding::HalfUp => if 2 * r < d {
                q
            } else if 2 * r > d {
                q + 1
            } else if n >= 0 {
                q + 1
            } else {
                q
            },
            Rounding::HalfDown => if 2 * r < d {
                q
            } else if 2 * r > d {
                q + 1
            } else if n >= 0 {
                q
            } else {
                q + 1
            },
            Rounding::HalfEven => if 2 * r < d {
                q
            } else if 2 * r > d {
                q + 1
            } else if q % 2 == 0 {
                q
            } else {
                q + 1
            },
        }
    }
}

/// The mantissa, at scale `t`, of `m × 10^(-s)` rounded with `mode`.
pub open spec fn round_at(m: int, s: int, t: int, mode: Rounding) -> int {
    if t >= s {
        m * pow10((t - s) as nat)
    } else {
        round_div(m, pow10((s - t) as nat), mode)
    }
}

/// `2^32`, the base of a mantissa's limbs.
pub open spec fn limb_base() -> nat {
    0x1_0000_0000
}

/// The magnitude of a mantissa: base-2^32 limbs, least significant first.
#[derive(Debug)]
pub enum Limbs {
    Nil,
    Cons(u32, Box<Limbs>),
}

/// The number the limbs `l` stand for.
pub open spec fn limbs_value(l: Limbs) -> nat
    decreases l,
{
    match l {
        Limbs::Nil => 0,
        Limbs::Cons(d, rest) => (d as nat + limb_base() * limbs_value(*rest)) as nat,
    }
}

/// Whether `l` has no leading (most significant) zero limb.
pub open spec fn limbs_canonical(l: Limbs) -> bool
    decreases l,
{
    match l {
        Limbs::Nil => true,
        Limbs::Cons(d, rest) => limbs_canonical(*rest) && (*rest is Nil ==> d != 0),
    }
}

/// The canonical limbs of `n`.
pub open spec fn limbs_of(n: nat) -> Limbs
    decreases n,
{
    if n == 0 {
        Limbs::Nil
    } else {
        Limbs::Cons((n % limb_base()) as u32, Box::new(limbs_of(n / limb_base())))
    }
}

/// A mantissa of any size: a sign and a magnitude.
#[derive(Debug, Clone)]
pub struct Mantissa {
    pub negative: bool,
    pub magnitude: Limbs,
}

impl Mantissa {
    /// The integer the mantissa stands for.
    pub open spec fn value(self) -> int {
        if self.negative {
            -(limbs_value(self.magnitude) as int)
        } else {
            limbs_value(self.magnitude) as int
        }
    }

    /// Whether this is the one canonical form of its value.
    pub open spec fn canonical(self) -> bool {
        limbs_canonical(self.magnitude) && (self.magnitude is Nil ==> !self.negative)
    }
}

/// The canonical mantissa of `x`.
pub open spec fn mantissa_of(x: int) -> Mantissa {
    if x < 0 {
        Mantissa { negative: true, magnitude: limbs_of((-x) as nat) }
    } else {
        Mantissa { negative: false, magnitude: limbs_of(x as nat) }
    }
}

/// An exact decimal `mantissa × 10^(-scale)`.
#[derive(Debug, Clone)]
pub struct Decimal {
    pub mantissa: Mantissa,
    pub scale: i64,
}

/// The decimal `m × 10^(-s)`, with its canonical mantissa.
pub open spec fn dec(m: int, s: int) -> Decimal {
    Decimal { mantissa: mantissa_of(m), scale: s as i64 }
}

/// The larger of two scales.
pub open spec fn max_scale(a: Decimal, b: Decimal) -> int {
    if a.scale >= b.scale {
        a.scale as int
    } else {
        b.scale as int
    }
}

impl Decimal {
    /// The mantissa as an integer.
    pub open spec fn m(self) -> int {
        self.mantissa.value()
    }

    /// The mantissa this value has at scale `t` (for `t >= self.scale`).
    pub open spec fn at_scale(self, t: int) -> int {
        self.m() * pow10((t - self.scale) as nat)
    }

    /// `-1`, `0` or `1`: the sign of the value.
    pub open spec fn sign(self) -> int {
        if self.m() > 0 {
            1
        } else if self.m() < 0 {
            -1
        } else {
            0
        }
    }
}

/// Whether `a` and `b` denote the same number (`1.50 == 1.5`).
pub open spec fn same_value(a: Decimal, b: Decimal) -> bool {
    a.at_scale(max_scale(a, b)) == b.at_scale(max_scale(a, b))
}

/// `a + b`, exact, at the larger of the two scales; `None` only where the
/// difference of the two `i64` scales (which `bigdecimal` computes to align
/// them) overflows.
pub open spec fn add_spec(a: Decimal, b: Decimal) -> Option<Decimal> {
    let t = max_scale(a, b);
    if fits_i64(a.scale - b.scale) && fits_i64(b.scale - a.scale) {
        Some(dec(a.at_scale(t) + b.at_scale(t), t))
    } else {
        None
    }
}

/// `-a`, exact, at the same scale.
pub open spec fn neg_spec(a: Decimal) -> Option<Decimal> {
    Some(dec(-a.m(), a.scale as int))
}

/// Whether `bigdecimal` can multiply `a` by `b` and round to `t`
/// fractional digits without its `i64` scale arithmetic overflowing: the
/// scale sum, and its distance to a non-negative `t`, fit an `i64`.
pub open spec fn mul_scales_ok(a: Decimal, b: Decimal, t: int) -> bool {
    &&& t >= 0
    &&& fits_i64(t)
    &&& fits_i64(a.scale + b.scale)
    &&& fits_i64(t - (a.scale + b.scale))
    &&& fits_i64((a.scale + b.scale) - t)
}

/// `a × b` rounded to `t` fractional digits with `mode`; `None` only where
/// [`mul_scales_ok`] fails.
pub open spec fn mul_round_spec(a: Decimal, b: Decimal, t: int, mode: Rounding) -> Option<
    Decimal,
> {
    if mul_scales_ok(a, b, t) {
        Some(dec(round_at(a.m() * b.m(), a.scale + b.scale, t, mode), t))
    } else {
        None
    }
}

/// The scale magnitude up to which `bigdecimal`'s reciprocal and quotient
/// at 34 significant digits keep their `i64` scale arithmetic (a few sums
/// and differences of scales and digit counts) in range: a quarter of the
/// `i64` range.
pub const SCALE_HEADROOM: i64 = 2305843009213693951;

/// Whether `s` is within [`SCALE_HEADROOM`] of zero.
pub open spec fn scale_in_headroom(s: int) -> bool {
    -SCALE_HEADROOM <= s <= SCALE_HEADROOM
}

/// The `(mantissa, scale)` that `bigdecimal` parses `s` into, or `None` when
/// `BigDecimal::from_str` rejects it.
pub uninterp spec fn bd_parse(s: Seq<char>) -> Option<(int, int)>;

/// The text `bigdecimal` displays the value `m × 10^(-s)` as.
pub uninterp spec fn bd_text(m: int, s: int) -> Seq<char>;

/// The `(mantissa, scale)` of `1 / (m × 10^(-s))` computed by
/// `BigDecimal::inverse_with_context` at 34 significant digits, half-even.
pub uninterp spec fn bd_inverse(m: int, s: int) -> (int, int);

/// The `(mantissa, scale)` of `(n / d)` computed by `bigdecimal` and then
/// rounded to 34 significant digits, half-even.
pub uninterp spec fn bd_quotient(nm: int, ns: int, dm: int, ds: int) -> (int, int);

/// The decimal of a `(mantissa, scale)` pair.
pub open spec fn from_pair(p: (int, int)) -> Decimal {
    dec(p.0, p.1)
}

/// The reciprocal of `a` at 34 significant digits, half-even: `None` for
/// zero, or for a scale beyond [`SCALE_HEADROOM`].
pub open spec fn inverse_spec(a: Decimal) -> Option<Decimal> {
    if a.m() == 0 || !scale_in_headroom(a.scale as int) {
        None
    } else {
        Some(from_pair(bd_inverse(a.m(), a.scale as int)))
    }
}

/// `n / d` at 34 significant digits, half-even: `None` for a zero divisor,
/// or for a scale beyond [`SCALE_HEADROOM`].
pub open spec fn quotient_spec(n: Decimal, d: Decimal) -> Option<Decimal> {
    if d.m() == 0 || !scale_in_headroom(n.scale as int) || !scale_in_headroom(d.scale as int) {
        None
    } else {
        Some(from_pair(bd_quotient(n.m(), n.scale as int, d.m(), d.scale as int)))
    }
}

/// What [`Decimal::parse`] returns for `s`.
pub open spec fn parse_spec(s: Seq<char>) -> Option<Decimal> {
    match bd_parse(s) {
        None => None,
        Some(p) => Some(from_pair(p)),
    }
}

/// The number of decimal digits of `n` (`1` for zero).
pub open spec fn digit_count(n: nat) -> nat
    decreases n,
{
    if n < 10 {
        1
    } else {
        1 + digit_count(n / 10)
    }
}

/// The magnitude of an integer.
pub open spec fn magnitude(x: int) -> nat {
    if x >= 0 {
        x as nat
    } else {
        (-x) as nat
    }
}

/// The number base-2^32 limbs `s` (least significant first) stand for.
pub open spec fn seq_value(s: Seq<u32>) -> nat
    decreases s.len(),
{
    if s.len() == 0 {
        0
    } else {
        (s[0] as nat + limb_base() * seq_value(s.drop_first())) as nat
    }
}

/// The integer a sign and limbs stand for.
pub open spec fn signed(negative: bool, s: Seq<u32>) -> int {
    if negative {
        -(seq_value(s) as int)
    } else {
        seq_value(s) as int
    }
}

/// Whether a sign and limbs are in the form `num-bigint` hands out: no
/// most-significant zero limb, and no sign on zero.
pub open spec fn parts_canonical(negative: bool, s: Seq<u32>) -> bool {
    (s.len() == 0 || s.last() != 0) && (negative ==> s.len() > 0)
}

/// The limbs of `l`, least significant first.
pub open spec fn limbs_seq(l: Limbs) -> Seq<u32>
    decreases l,
{
    match l {
        Limbs::Nil => Seq::empty(),
        Limbs::Cons(d, rest) => seq![d] + limbs_seq(*rest),
    }
}

/// The limbs list of a sequence of limbs.
pub open spec fn seq_limbs(s: Seq<u32>) -> Limbs
    decreases s.len(),
{
    if s.len() == 0 {
        Limbs::Nil
    } else {
        Limbs::Cons(s[0], Box::new(seq_limbs(s.drop_first())))
    }
}

proof fn lemma_seq_value_cons(d: u32, t: Seq<u32>)
    ensures
        seq_value(seq![d] + t) == d as nat + limb_base() * seq_value(t),
{
    assert((seq![d] + t).drop_first() =~= t);
}

proof fn lemma_limbs_seq_value(l: Limbs)
    ensures
        seq_value(limbs_seq(l)) == limbs_value(l),
    decreases l,
{
    match l {
        Limbs::Nil => {},
        Limbs::Cons(d, rest) => {
            lemma_limbs_seq_value(*rest);
            lemma_seq_value_cons(d, limbs_seq(*rest));
        },
    }
}

proof fn lemma_seq_limbs(s: Seq<u32>)
    ensures
        limbs_value(seq_limbs(s)) == seq_value(s),
        s.len() == 0 || s.last() != 0 ==> limbs_canonical(seq_limbs(s)),
        seq_limbs(s) is Nil <==> s.len() == 0,
    decreases s.len(),
{
    if s.len() > 0 {
        let t = s.drop_first();
        lemma_seq_limbs(t);
        if t.len() > 0 {
            assert(t.last() == s.last());
        }
    }
}

proof fn lemma_seq_value_trailing_zero(s: Seq<u32>)
    ensures
        seq_value(s.push(0u32)) == seq_value(s),
    decreases s.len(),
{
    let t = s.push(0u32);
    if s.len() == 0 {
        assert(t.drop_first() =~= Seq::<u32>::empty());
        assert(seq_value(t.drop_first()) == 0);
        assert(t[0] == 0u32);
        assert(seq_value(t) == t[0] as nat + limb_base() * seq_value(t.drop_first()));
    } else {
        lemma_seq_value_trailing_zero(s.drop_first());
        assert(t.drop_first() =~= s.drop_first().push(0u32));
        assert(t[0] == s[0]);
        assert(seq_value(t) == t[0] as nat + limb_base() * seq_value(t.drop_first()));
        assert(seq_value(s) == s[0] as nat + limb_base() * seq_value(s.drop_first()));
    }
}

proof fn lemma_div_limb(d: nat, k: nat)
    requires
        d < limb_base(),
    ensures
        (d + limb_base() * k) % limb_base() == d,
        (d + limb_base() * k) / limb_base() == k,
{
    vstd::arithmetic::div_mod::lemma_fundamental_div_mod_converse(
        (d + limb_base() * k) as int,
        limb_base() as int,
        k as int,
        d as int,
    );
}

proof fn lemma_limbs_of(n: nat)
    ensures
        limbs_value(limbs_of(n)) == n,
        limbs_canonical(limbs_of(n)),
    decreases n,
{
    if n > 0 {
        let b = limb_base();
        vstd::arithmetic::div_mod::lemma_fundamental_div_mod(n as int, b as int);
        assert(n / b < n);
        lemma_limbs_of(n / b);
        if n / b == 0 {
            assert(n % b == n);
        }
    }
}

proof fn lemma_canonical_positive(l: Limbs)
    requires
        limbs_canonical(l),
        !(l is Nil),
    ensures
        limbs_value(l) > 0,
    decreases l,
{
    match l {
        Limbs::Nil => {},
        Limbs::Cons(d, rest) => {
            if !(*rest is Nil) {
                lemma_canonical_positive(*rest);
                assert(limb_base() * limbs_value(*rest) > 0) by (nonlinear_arith)
                    requires
                        limbs_value(*rest) > 0,
                        limb_base() > 0,
                ;
            }
        },
    }
}

proof fn lemma_limbs_unique(l: Limbs)
    requires
        limbs_canonical(l),
    ensures
        limbs_of(limbs_value(l)) == l,
    decreases l,
{
    match l {
        Limbs::Nil => {},
        Limbs::Cons(d, rest) => {
            lemma_limbs_unique(*rest);
            let v = limbs_value(l);
            if *rest is Nil {
                assert(v == d as nat);
            } else {
                lemma_canonical_positive(*rest);
            }
            assert(v > 0);
            lemma_div_limb(d as nat, limbs_value(*rest));
        },
    }
}

/// The decimal `dec(x, s)` has mantissa `x`.
pub broadcast proof fn lemma_dec_m(x: int, s: int)
    ensures
        #[trigger] dec(x, s).m() == x,
{
    lemma_mantissa_of(x);
}

proof fn lemma_mantissa_of(x: int)
    ensures
        mantissa_of(x).value() == x,
        mantissa_of(x).canonical(),
{
    if x < 0 {
        lemma_limbs_of((-x) as nat);
        lemma_canonical_nil((-x) as nat);
    } else {
        lemma_limbs_of(x as nat);
    }
}

proof fn lemma_canonical_nil(n: nat)
    requires
        n > 0,
    ensures
        !(limbs_of(n) is Nil),
{
}

proof fn lemma_mantissa_unique(m: Mantissa)
    requires
        m.canonical(),
    ensures
        mantissa_of(m.value()) == m,
{
    lemma_limbs_unique(m.magnitude);
    if m.negative {
        lemma_canonical_positive(m.magnitude);
    }
}

proof fn lemma_pow10_pos(n: nat)
    ensures
        pow10(n) >= 1,
    decreases n,
{
    if n > 0 {
        lemma_pow10_pos((n - 1) as nat);
    }
}

proof fn lemma_round_div_keeps_sign(n: int, d: int, mode: Rounding)
    requires
        d > 0,
    ensures
        n >= 0 ==> round_div(n, d, mode) >= 0,
        n <= 0 ==> round_div(n, d, mode) <= 0,
{
    let q = n / d;
    let r = n % d;
    assert(n >= 0 ==> q >= 0) by (nonlinear_arith)
        requires
            d > 0,
            q == n / d,
    ;
    assert(n <= 0 ==> q <= 0) by (nonlinear_arith)
        requires
            d > 0,
            q == n / d,
    ;
    assert(n < 0 && r != 0 ==> q <= -1) by (nonlinear_arith)
        requires
            d > 0,
            q == n / d,
            r == n % d,
    ;
    assert(n == 0 ==> r == 0) by (nonlinear_arith)
        requires
            d > 0,
            r == n % d,
    ;
}

/// Rounding never flips a sign: in every mode and at every precision, a
/// non-negative value rounds to a non-negative one and a non-positive value
/// to a non-positive one.
pub proof fn lemma_round_at_keeps_sign(m: int, s: int, t: int, mode: Rounding)
    ensures
        m >= 0 ==> round_at(m, s, t, mode) >= 0,
        m <= 0 ==> round_at(m, s, t, mode) <= 0,
{
    if t >= s {
        let p = pow10((t - s) as nat);
        lemma_pow10_pos((t - s) as nat);
        assert(m >= 0 ==> m * p >= 0) by (nonlinear_arith)
            requires
                p >= 1,
        ;
        assert(m <= 0 ==> m * p <= 0) by (nonlinear_arith)
            requires
                p >= 1,
        ;
    } else {
        lemma_pow10_pos((s - t) as nat);
        lemma_round_div_keeps_sign(m, pow10((s - t) as nat), mode);
    }
}

/// Adding two non-negative decimals gives a non-negative one, and two
/// non-positive decimals a non-positive one.
pub proof fn lemma_add_keeps_sign(a: Decimal, b: Decimal)
    ensures
        a.m() >= 0 && b.m() >= 0 && add_spec(a, b) is Some ==> (add_spec(a, b)->0).m() >= 0,
        a.m() <= 0 && b.m() <= 0 && add_spec(a, b) is Some ==> (add_spec(a, b)->0).m() <= 0,
{
    let t = max_scale(a, b);
    let pa = pow10((t - a.scale) as nat);
    let pb = pow10((t - b.scale) as nat);
    lemma_pow10_pos((t - a.scale) as nat);
    lemma_pow10_pos((t - b.scale) as nat);
    let x = a.m() * pa;
    let y = b.m() * pb;
    assert(a.m() >= 0 ==> x >= 0) by (nonlinear_arith)
        requires
            x == a.m() * pa,
            pa >= 1,
    ;
    assert(a.m() <= 0 ==> x <= 0) by (nonlinear_arith)
        requires
            x == a.m() * pa,
            pa >= 1,
    ;
    assert(b.m() >= 0 ==> y >= 0) by (nonlinear_arith)
        requires
            y == b.m() * pb,
            pb >= 1,
    ;
    assert(b.m() <= 0 ==> y <= 0) by (nonlinear_arith)
        requires
            y == b.m() * pb,
            pb >= 1,
    ;
    lemma_mantissa_of(x + y);
}

proof fn lemma_parts_denote(d: Decimal, v: Seq<u32>)
    requires
        seq_value(v) == limbs_value(d.mantissa.magnitude),
    ensures
        dec(signed(d.mantissa.negative, v), d.scale as int).m() == d.m(),
        dec(signed(d.mantissa.negative, v), d.scale as int).scale == d.scale,
{
    lemma_mantissa_of(signed(d.mantissa.negative, v));
}

/// Append the limbs of `l` to `out`.
fn push_limbs(l: &Limbs, out: &mut Vec<u32>)
    ensures
        final(out)@ == old(out)@ + limbs_seq(*l),
    decreases l,
{
    match l {
        Limbs::Nil => {
            assert(old(out)@ + limbs_seq(*l) =~= old(out)@);
        },
        Limbs::Cons(d, rest) => {
            out.push(*d);
            push_limbs(rest, out);
            assert(old(out)@ + limbs_seq(*l) =~= old(out)@.push(*d) + limbs_seq(**rest));
        },
    }
}

/// The limbs of a magnitude as a vector.
pub(crate) fn limbs_vec(l: &Limbs) -> (v: Vec<u32>)
    ensures
        seq_value(v@) == limbs_value(*l),
{
    let mut v: Vec<u32> = Vec::new();
    push_limbs(l, &mut v);
    proof {
        assert(v@ =~= limbs_seq(*l));
        lemma_limbs_seq_value(*l);
    }
    v
}

/// The limbs list of a vector of limbs.
fn vec_limbs(v: &Vec<u32>) -> (l: Limbs)
    ensures
        l == seq_limbs(v@),
{
    let mut acc = Limbs::Nil;
    let mut i: usize = v.len();
    assert(v@.subrange(i as int, v@.len() as int) =~= Seq::<u32>::empty());
    while i > 0
        invariant
            i <= v@.len(),
            acc == seq_limbs(v@.subrange(i as int, v@.len() as int)),
        decreases i,
    {
        i = i - 1;
        assert(v@.subrange(i as int, v@.len() as int).drop_first() =~= v@.subrange(
            i + 1,
            v@.len() as int,
        ));
        acc = Limbs::Cons(v[i], Box::new(acc));
    }
    assert(v@.subrange(0, v@.len() as int) =~= v@);
    acc
}

/// The decimal of parts in `num-bigint`'s form.
pub(crate) fn from_parts(negative: bool, v: Vec<u32>, scale: i64) -> (r: Decimal)
    requires
        parts_canonical(negative, v@),
    ensures
        r == dec(signed(negative, v@), scale as int),
{
    let magnitude = vec_limbs(&v);
    let m = Mantissa { negative, magnitude };
    proof {
        lemma_seq_limbs(v@);
        assert(m.value() == signed(negative, v@));
        lemma_mantissa_unique(m);
    }
    Decimal { mantissa: m, scale }
}

/// Whether the limbs stand for zero.
fn limbs_are_zero(l: &Limbs) -> (b: bool)
    ensures
        b == (limbs_value(*l) == 0),
    decreases l,
{
    match l {
        Limbs::Nil => true,
        Limbs::Cons(d, rest) => {
            let z = limbs_are_zero(rest);
            proof {
                assert(limbs_value(*l) == *d as nat + limb_base() * limbs_value(**rest));
                if limbs_value(**rest) > 0 {
                    assert(limb_base() * limbs_value(**rest) > 0) by (nonlinear_arith)
                        requires
                            limbs_value(**rest) > 0,
                            limb_base() > 0,
                    ;
                }
            }
            *d == 0 && z
        },
    }
}

/// A copy of `l`.
fn copy_limbs(l: &Limbs) -> (r: Limbs)
    ensures
        r == *l,
    decreases l,
{
    match l {
        Limbs::Nil => Limbs::Nil,
        Limbs::Cons(d, rest) => Limbs::Cons(*d, Box::new(copy_limbs(rest))),
    }
}

impl Clone for Limbs {
    fn clone(&self) -> (r: Limbs)
        ensures
            r == *self,
    {
        copy_limbs(self)
    }
}

impl Decimal {
    /// Zero, at scale 0.
    pub fn zero() -> (d: Decimal)
        ensures
            d == dec(0, 0),
            d.m() == 0,
            d.scale == 0,
    {
        Decimal { mantissa: Mantissa { negative: false, magnitude: Limbs::Nil }, scale: 0 }
    }

    /// A copy of this decimal.
    pub fn dup(&self) -> (r: Decimal)
        ensures
            r == *self,
    {
        Decimal {
            mantissa: Mantissa {
                negative: self.mantissa.negative,
                magnitude: copy_limbs(&self.mantissa.magnitude),
            },
            scale: self.scale,
        }
    }

    /// Whether the value is zero.
    pub fn is_zero(&self) -> (b: bool)
        ensures
            b == (self.sign() == 0),
    {
        limbs_are_zero(&self.mantissa.magnitude)
    }

    /// Whether the value is strictly positive.
    pub fn is_positive(&self) -> (b: bool)
        ensures
            b == (self.sign() == 1),
    {
        !self.mantissa.negative && !limbs_are_zero(&self.mantissa.magnitude)
    }

    /// Whether the value is strictly negative.
    pub fn is_negative(&self) -> (b: bool)
        ensures
            b == (self.sign() == -1),
    {
        self.mantissa.negative && !limbs_are_zero(&self.mantissa.magnitude)
    }

    /// `self + other`, exact, at the larger of the two scales ([`add_spec`]).
    pub fn checked_add(&self, other: &Decimal) -> (r: Option<Decimal>)
        ensures
            r == add_spec(*self, *other),
    {
        let d: i128 = self.scale as i128 - other.scale as i128;
        let lo: i128 = i64::MIN as i128;
        let hi: i128 = i64::MAX as i128;
        if d < lo || d > hi || -d < lo || -d > hi {
            return None;
        }
        let av = limbs_vec(&self.mantissa.magnitude);
        let bv = limbs_vec(&other.mantissa.magnitude);
        proof {
            lemma_parts_denote(*self, av@);
            lemma_parts_denote(*other, bv@);
        }
        let (n, v, s) = bd_add(self.mantissa.negative, &av, self.scale, other.mantissa.negative, &bv, other.scale);
        Some(from_parts(n, v, s))
    }

    /// `-self`, exact, at the same scale.
    pub fn checked_neg(&self) -> (r: Option<Decimal>)
        ensures
            r == neg_spec(*self),
    {
        let v = limbs_vec(&self.mantissa.magnitude);
        Some(Decimal::from_limbs(!self.mantissa.negative, v, self.scale))
    }

    /// The decimal with the given sign, base-2^32 limbs (least significant
    /// first) and scale.
    pub fn from_limbs(negative: bool, limbs: Vec<u32>, scale: i64) -> (r: Decimal)
        ensures
            r == dec(signed(negative, limbs@), scale as int),
    {
        let ghost v0 = limbs@;
        let mut v = limbs;
        while v.len() > 0 && v[v.len() - 1] == 0
            invariant
                seq_value(v@) == seq_value(v0),
            decreases v.len(),
        {
            let ghost before = v@;
            v.pop();
            proof {
                assert(before =~= v@.push(0u32));
                lemma_seq_value_trailing_zero(v@);
            }
        }
        let n = negative && v.len() > 0;
        proof {
            if v.len() == 0 {
                assert(seq_value(v@) == 0);
            }
        }
        from_parts(n, v, scale)
    }

    /// The sign, base-2^32 limbs (least significant first) and scale of
    /// this decimal.
    pub fn to_limbs(&self) -> (r: (bool, Vec<u32>, i64))
        ensures
            signed(r.0, r.1@) == self.m(),
            r.2 == self.scale,
    {
        (self.mantissa.negative, limbs_vec(&self.mantissa.magnitude), self.scale)
    }

    /// Whether `self` and `other` denote the same number.
    pub fn same_value_as(&self, other: &Decimal) -> (b: bool)
        ensures
            b == same_value(*self, *other),
    {
        let av = limbs_vec(&self.mantissa.magnitude);
        let bv = limbs_vec(&other.mantissa.magnitude);
        proof {
            lemma_parts_denote(*self, av@);
            lemma_parts_denote(*other, bv@);
        }
        bd_eq(self.mantissa.negative, &av, self.scale, other.mantissa.negative, &bv, other.scale)
    }

    /// Parse `s` with `BigDecimal::from_str`; `None` when it is not a number.
    pub fn parse(s: &str) -> (r: Option<Decimal>)
        ensures
            r == parse_spec(s@),
            bd_parse(s@) matches Some(q) ==> fits_i64(q.1),
    {
        match bd_from_str(s) {
            Some((n, v, e)) => Some(from_parts(n, v, e)),
            None => None,
        }
    }

    /// The value as `bigdecimal` displays it (e.g. `"7.50"`).
    pub fn to_text(&self) -> (r: String)
        ensures
            r@ == bd_text(self.m(), self.scale as int),
    {
        let v = limbs_vec(&self.mantissa.magnitude);
        bd_to_string(self.mantissa.negative, &v, self.scale)
    }

    /// The number of decimal digits of the mantissa (`BigDecimal::digits`).
    pub fn digits(&self) -> (r: u64)
        ensures
            r == digit_count(magnitude(self.m())),
    {
        let v = limbs_vec(&self.mantissa.magnitude);
        bd_digits(self.mantissa.negative, &v, self.scale)
    }
}

/// A copy of an optional decimal.
pub fn dup_opt(o: &Option<Decimal>) -> (r: Option<Decimal>)
    ensures
        r == *o,
{
    match o {
        Some(d) => Some(d.dup()),
        None => None,
    }
}

impl PartialEq for Decimal {
    fn eq(&self, other: &Decimal) -> (b: bool) {
        self.same_value_as(other)
    }
}

impl vstd::std_specs::cmp::PartialEqSpecImpl for Decimal {
    open spec fn obeys_eq_spec() -> bool {
        true
    }

    open spec fn eq_spec(&self, other: &Decimal) -> bool {
        same_value(*self, *other)
    }
}

/// `a × b` rounded to `scale` fractional digits with `mode`
/// ([`mul_round_spec`]).
pub(crate) fn mul_with_scale_round(a: &Decimal, b: &Decimal, scale: i64, mode: Rounding) -> (r: Option<
    Decimal,
>)
    ensures
        r == mul_round_spec(*a, *b, scale as int, mode),
{
    let s: i128 = a.scale as i128 + b.scale as i128;
    let t: i128 = scale as i128;
    let lo: i128 = i64::MIN as i128;
    let hi: i128 = i64::MAX as i128;
    if t < 0 || s < lo || s > hi || t - s < lo || t - s > hi || s - t < lo || s - t > hi {
        return None;
    }
    let av = limbs_vec(&a.mantissa.magnitude);
    let bv = limbs_vec(&b.mantissa.magnitude);
    proof {
        lemma_parts_denote(*a, av@);
        lemma_parts_denote(*b, bv@);
    }
    let (n, v, e) = bd_mul_round(a.mantissa.negative, &av, a.scale, b.mantissa.negative, &bv, b.scale, scale, mode);
    Some(from_parts(n, v, e))
}

/// The reciprocal of `a` ([`inverse_spec`]).
pub(crate) fn inverse_at_working_precision(a: &Decimal) -> (r: Option<Decimal>)
    ensures
        r == inverse_spec(*a),
{
    if a.is_zero() || a.scale < -SCALE_HEADROOM || a.scale > SCALE_HEADROOM {
        return None;
    }
    let av = limbs_vec(&a.mantissa.magnitude);
    proof {
        lemma_parts_denote(*a, av@);
    }
    let (n, v, e) = bd_inverse_34(a.mantissa.negative, &av, a.scale);
    Some(from_parts(n, v, e))
}

/// The quotient `n / d` ([`quotient_spec`]).
pub(crate) fn quotient_at_working_precision(n: &Decimal, d: &Decimal) -> (r: Option<Decimal>)
    ensures
        r == quotient_spec(*n, *d),
{
    if d.is_zero() || n.scale < -SCALE_HEADROOM || n.scale > SCALE_HEADROOM || d.scale
        < -SCALE_HEADROOM || d.scale > SCALE_HEADROOM {
        return None;
    }
    let nv = limbs_vec(&n.mantissa.magnitude);
    let dv = limbs_vec(&d.mantissa.magnitude);
    proof {
        lemma_parts_denote(*n, nv@);
        lemma_parts_denote(*d, dv@);
    }
    let (g, v, e) = bd_quotient_34(n.mantissa.negative, &nv, n.scale, d.mantissa.negative, &dv, d.scale);
    Some(from_parts(g, v, e))
}

/// `BigDecimal::from_str(s)`, brought back as sign, base-2^32 limbs and
/// scale (`into_bigint_and_exponent`, then `to_u32_digits`, which
/// `num-bigint` hands out without most-significant zero limbs and without a
/// sign on zero); `None` when `bigdecimal` rejects the text.
#[verifier::external_body]
pub(crate) fn bd_from_str(s: &str) -> (r: Option<(bool, Vec<u32>, i64)>)
    ensures
        r is None <==> bd_parse(s@) is None,
        r matches Some(p) ==> parts_canonical(p.0, p.1@) && bd_parse(s@) == Some(
            (signed(p.0, p.1@), p.2 as int),
        ),
{
    let (int_val, scale) = BigDecimal::from_str(s).ok()?.into_bigint_and_exponent();
    let (sign, digits) = int_val.to_u32_digits();
    Some((sign == Sign::Minus, digits, scale))
}

/// `BigDecimal`'s `Display` of the value with the given sign, limbs and
/// scale.
#[verifier::external_body]
fn bd_to_string(negative: bool, limbs: &Vec<u32>, scale: i64) -> (r: String)
    ensures
        r@ == bd_text(signed(negative, limbs@), scale as int),
{
    let sign = if negative { Sign::Minus } else { Sign::Plus };
    BigDecimal::new(BigInt::new(sign, limbs.clone()), scale).to_string()
}

/// `BigDecimal::digits`: the number of decimal digits of the mantissa.
#[verifier::external_body]
fn bd_digits(negative: bool, limbs: &Vec<u32>, scale: i64) -> (r: u64)
    ensures
        r == digit_count(magnitude(signed(negative, limbs@))),
{
    let sign = if negative { Sign::Minus } else { Sign::Plus };
    BigDecimal::new(BigInt::new(sign, limbs.clone()), scale).digits()
}

/// `BigDecimal` value equality (`==`), which compares the numbers whatever
/// their scales.
#[verifier::external_body]
fn bd_eq(an: bool, al: &Vec<u32>, a_scale: i64, bn: bool, bl: &Vec<u32>, b_scale: i64) -> (r: bool)
    ensures
        r == same_value(
            dec(signed(an, al@), a_scale as int),
            dec(signed(bn, bl@), b_scale as int),
        ),
{
    let a = BigDecimal::new(BigInt::new(if an { Sign::Minus } else { Sign::Plus }, al.clone()), a_scale);
    let b = BigDecimal::new(BigInt::new(if bn { Sign::Minus } else { Sign::Plus }, bl.clone()), b_scale);
    a == b
}

/// `a + b` with `bigdecimal` (owned addition): the mantissa of the operand
/// with the smaller scale is multiplied up to the larger scale and the two
/// are added exactly, so the sum is exact at the larger scale. The scales'
/// difference fits an `i64`, so aligning them cannot overflow.
#[verifier::external_body]
fn bd_add(an: bool, al: &Vec<u32>, a_scale: i64, bn: bool, bl: &Vec<u32>, b_scale: i64) -> (r: (
    bool,
    Vec<u32>,
    i64,
))
    requires
        fits_i64(a_scale - b_scale),
        fits_i64(b_scale - a_scale),
    ensures
        parts_canonical(r.0, r.1@),
        Some(dec(signed(r.0, r.1@), r.2 as int)) == add_spec(
            dec(signed(an, al@), a_scale as int),
            dec(signed(bn, bl@), b_scale as int),
        ),
{
    let a = BigDecimal::new(BigInt::new(if an { Sign::Minus } else { Sign::Plus }, al.clone()), a_scale);
    let b = BigDecimal::new(BigInt::new(if bn { Sign::Minus } else { Sign::Plus }, bl.clone()), b_scale);
    let (int_val, scale) = (a + b).into_bigint_and_exponent();
    let (sign, digits) = int_val.to_u32_digits();
    (sign == Sign::Minus, digits, scale)
}

/// `(a * b).with_scale_round(scale, mode)` with `bigdecimal`: the exact
/// product rounded to `scale` fractional digits. The scales satisfy
/// [`mul_scales_ok`], so `bigdecimal`'s scale sum and differences cannot
/// overflow.
#[verifier::external_body]
fn bd_mul_round(
    an: bool,
    al: &Vec<u32>,
    a_scale: i64,
    bn: bool,
    bl: &Vec<u32>,
    b_scale: i64,
    scale: i64,
    mode: Rounding,
) -> (r: (bool, Vec<u32>, i64))
    requires
        mul_scales_ok(
            dec(signed(an, al@), a_scale as int),
            dec(signed(bn, bl@), b_scale as int),
            scale as int,
        ),
    ensures
        parts_canonical(r.0, r.1@),
        Some(dec(signed(r.0, r.1@), r.2 as int)) == mul_round_spec(
            dec(signed(an, al@), a_scale as int),
            dec(signed(bn, bl@), b_scale as int),
            scale as int,
            mode,
        ),
{
    let mode = match mode {
        Rounding::Up => bigdecimal::RoundingMode::Up,
        Rounding::Down => bigdecimal::RoundingMode::Down,
        Rounding::Ceiling => bigdecimal::RoundingMode::Ceiling,
        Rounding::Floor => bigdecimal::RoundingMode::Floor,
        Rounding::HalfUp => bigdecimal::RoundingMode::HalfUp,
        Rounding::HalfDown => bigdecimal::RoundingMode::HalfDown,
        Rounding::HalfEven => bigdecimal::RoundingMode::HalfEven,
    };
    let a = BigDecimal::new(BigInt::new(if an { Sign::Minus } else { Sign::Plus }, al.clone()), a_scale);
    let b = BigDecimal::new(BigInt::new(if bn { Sign::Minus } else { Sign::Plus }, bl.clone()), b_scale);
    let (int_val, e) = (a * b).with_scale_round(scale, mode).into_bigint_and_exponent();
    let (sign, digits) = int_val.to_u32_digits();
    (sign == Sign::Minus, digits, e)
}

/// `BigDecimal::inverse_with_context` at 34 significant digits, half-even.
/// The input is non-zero and its scale within [`SCALE_HEADROOM`], so
/// `bigdecimal`'s scale arithmetic cannot overflow.
#[verifier::external_body]
fn bd_inverse_34(an: bool, al: &Vec<u32>, a_scale: i64) -> (r: (bool, Vec<u32>, i64))
    requires
        signed(an, al@) != 0,
        scale_in_headroom(a_scale as int),
    ensures
        parts_canonical(r.0, r.1@),
        (signed(r.0, r.1@), r.2 as int) == bd_inverse(signed(an, al@), a_scale as int),
{
    let context = bigdecimal::Context::new(
        NonZeroU64::new(34).unwrap(),
        bigdecimal::RoundingMode::HalfEven,
    );
    let a = BigDecimal::new(BigInt::new(if an { Sign::Minus } else { Sign::Plus }, al.clone()), a_scale);
    let (int_val, e) = a.inverse_with_context(&context).into_bigint_and_exponent();
    let (sign, digits) = int_val.to_u32_digits();
    (sign == Sign::Minus, digits, e)
}

/// `(n / d).with_precision_round(34, HalfEven)` with `bigdecimal`. The
/// divisor is non-zero and both scales within [`SCALE_HEADROOM`], so
/// `bigdecimal`'s scale difference and precision adjustment cannot overflow.
#[verifier::external_body]
fn bd_quotient_34(nn: bool, nl: &Vec<u32>, n_scale: i64, dn: bool, dl: &Vec<u32>, d_scale: i64) -> (r: (
    bool,
    Vec<u32>,
    i64,
))
    requires
        signed(dn, dl@) != 0,
        scale_in_headroom(n_scale as int),
        scale_in_headroom(d_scale as int),
    ensures
        parts_canonical(r.0, r.1@),
        (signed(r.0, r.1@), r.2 as int) == bd_quotient(
            signed(nn, nl@),
            n_scale as int,
            signed(dn, dl@),
            d_scale as int,
        ),
{
    let n = BigDecimal::new(BigInt::new(if nn { Sign::Minus } else { Sign::Plus }, nl.clone()), n_scale);
    let d = BigDecimal::new(BigInt::new(if dn { Sign::Minus } else { Sign::Plus }, dl.clone()), d_scale);
    let (int_val, e) = (&n / &d).with_precision_round(
        NonZeroU64::new(34).unwrap(),
        bigdecimal::RoundingMode::HalfEven,
    ).into_bigint_and_exponent();
    let (sign, digits) = int_val.to_u32_digits();
    (sign == Sign::Minus, digits, e)
}

} // verus!
