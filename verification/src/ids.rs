//! Row ids: 128-bit UUIDs, their hyphenated lowercase text form, and
//! parsing that text back.

use vstd::prelude::*;

use vstd::arithmetic::div_mod::lemma_breakdown;

verus! {

/// `16^n`.
pub open spec fn pow16(n: nat) -> nat
    decreases n,
{
    if n == 0 {
        1
    } else {
        16 * pow16((n - 1) as nat)
    }
}

/// The lowercase hexadecimal digit for `n` (`0..=15`).
pub open spec fn hex_char(n: int) -> char {
    if n == 0 {
        '0'
    } else if n == 1 {
        '1'
    } else if n == 2 {
        '2'
    } else if n == 3 {
        '3'
    } else if n == 4 {
        '4'
    } else if n == 5 {
        '5'
    } else if n == 6 {
        '6'
    } else if n == 7 {
        '7'
    } else if n == 8 {
        '8'
    } else if n == 9 {
        '9'
    } else if n == 10 {
        'a'
    } else if n == 11 {
        'b'
    } else if n == 12 {
        'c'
    } else if n == 13 {
        'd'
    } else if n == 14 {
        'e'
    } else {
        'f'
    }
}

/// The value of a lowercase hexadecimal digit.
pub open spec fn hex_value(c: char) -> Option<int> {
    if c == '0' {
        Some(0)
    } else if c == '1' {
        Some(1)
    } else if c == '2' {
        Some(2)
    } else if c == '3' {
        Some(3)
    } else if c == '4' {
        Some(4)
    } else if c == '5' {
        Some(5)
    } else if c == '6' {
        Some(6)
    } else if c == '7' {
        Some(7)
    } else if c == '8' {
        Some(8)
    } else if c == '9' {
        Some(9)
    } else if c == 'a' {
        Some(10)
    } else if c == 'b' {
        Some(11)
    } else if c == 'c' {
        Some(12)
    } else if c == 'd' {
        Some(13)
    } else if c == 'e' {
        Some(14)
    } else if c == 'f' {
        Some(15)
    } else {
        None
    }
}

/// The low `k` hexadecimal digits of `n`, most significant first.
pub open spec fn hex_digits(n: nat, k: nat) -> Seq<char>
    decreases k,
{
    if k == 0 {
        Seq::empty()
    } else {
        hex_digits(n / 16, (k - 1) as nat).push(hex_char((n % 16) as int))
    }
}

/// The number a string of lowercase hexadecimal digits spells.
pub open spec fn hex_seq_value(s: Seq<char>) -> Option<nat>
    decreases s.len(),
{
    if s.len() == 0 {
        Some(0)
    } else {
        match (hex_seq_value(s.drop_last()), hex_value(s.last())) {
            (Some(a), Some(d)) => Some(a * 16 + d as nat),
            _ => None,
        }
    }
}

/// The hyphenated lowercase form of a UUID (`8-4-4-4-12` hex digits), as
/// `uuid::Uuid` displays it.
pub open spec fn uuid_text_spec(id: u128) -> Seq<char> {
    let h = hex_digits(id as nat, 32);
    h.subrange(0, 8) + seq!['-'] + h.subrange(8, 12) + seq!['-'] + h.subrange(12, 16) + seq!['-']
        + h.subrange(16, 20) + seq!['-'] + h.subrange(20, 32)
}

/// The UUID a hyphenated lowercase text spells, when it has that form.
pub open spec fn hyphenated_inverse(s: Seq<char>) -> Option<u128> {
    if s.len() == 36 && s[8] == '-' && s[13] == '-' && s[18] == '-' && s[23] == '-' {
        let h = s.subrange(0, 8) + s.subrange(9, 13) + s.subrange(14, 18) + s.subrange(19, 23)
            + s.subrange(24, 36);
        match hex_seq_value(h) {
            Some(v) => if v <= u128::MAX {
                Some(v as u128)
            } else {
                None
            },
            None => None,
        }
    } else {
        None
    }
}

/// The UUID `uuid::Uuid::parse_str` reads from `s`, or `None` when it
/// rejects `s`.
pub uninterp spec fn uuid_parse(s: Seq<char>) -> Option<u128>;

/// The text of `id` as `uuid::Uuid`'s `Display` writes it: hyphenated,
/// lowercase.
#[verifier::external_body]
pub(crate) fn uuid_text(id: u128) -> (r: String)
    ensures
        r@ == uuid_text_spec(id),
{
    uuid::Uuid::from_u128(id).to_string()
}

/// `uuid::Uuid::parse_str(s)` as a 128-bit value. The crate accepts the
/// simple, hyphenated, braced and URN forms with hexadecimal digits in either
/// case; of these, only the reading of a hyphenated lowercase text is stated
/// here: it gives back the UUID the text spells.
#[verifier::external_body]
pub(crate) fn uuid_from_str(s: &str) -> (r: Option<u128>)
    ensures
        r == uuid_parse(s@),
        hyphenated_inverse(s@) matches Some(id) ==> r == Some(id),
{
    uuid::Uuid::parse_str(s).ok().map(|u| u.as_u128())
}

proof fn lemma_hex_char_value(n: int)
    requires
        0 <= n < 16,
    ensures
        hex_value(hex_char(n)) == Some(n),
{
}

proof fn lemma_hex_digits(n: nat, k: nat)
    ensures
        hex_digits(n, k).len() == k,
        hex_seq_value(hex_digits(n, k)) == Some(n % pow16(k)),
        pow16(k) > 0,
    decreases k,
{
    if k > 0 {
        lemma_hex_digits(n / 16, (k - 1) as nat);
        let h = hex_digits(n, k);
        let prev = hex_digits(n / 16, (k - 1) as nat);
        assert(h.drop_last() =~= prev);
        lemma_hex_char_value((n % 16) as int);
        lemma_breakdown(n as int, 16, pow16((k - 1) as nat) as int);
    }
}

proof fn lemma_pow16_32()
    ensures
        pow16(32) == 0x1_0000_0000_0000_0000_0000_0000_0000_0000,
{
    reveal_with_fuel(pow16, 33);
}

/// Reading back the text of a UUID gives the UUID.
pub proof fn lemma_uuid_text_round_trip(id: u128)
    ensures
        hyphenated_inverse(uuid_text_spec(id)) == Some(id),
{
    let h = hex_digits(id as nat, 32);
    lemma_hex_digits(id as nat, 32);
    lemma_pow16_32();
    let s = uuid_text_spec(id);
    assert(s.len() == 36);
    let g = s.subrange(0, 8) + s.subrange(9, 13) + s.subrange(14, 18) + s.subrange(19, 23)
        + s.subrange(24, 36);
    assert(g =~= h);
    assert((id as nat) % pow16(32) == id as nat);
}

} // verus!
