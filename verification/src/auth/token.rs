//! Opaque session tokens: 32 bytes from the operating system's random
//! source, hex-encoded. The raw value goes in the session cookie; only its
//! SHA-256 hash is stored, so a database leak exposes no usable token.

use vstd::prelude::*;

use sha2::{Digest, Sha256};

use crate::error::AuthError;
use crate::ids::hex_char;

verus! {

/// Number of random bytes in a raw token, before hex encoding.
pub const TOKEN_BYTES: usize = 32;

/// A freshly generated token: `raw` goes in the cookie, `hash` is stored.
#[derive(Debug, Clone)]
pub struct GeneratedToken {
    pub raw: String,
    pub hash: String,
}

#[verifier::external_type_specification]
#[verifier::external_body]
pub struct ExRandomError(getrandom::Error);

/// `getrandom::fill` on a fresh 32-byte buffer: the buffer, or the
/// operating system's error. The bytes depend on chance; only their number
/// is stated.
#[verifier::external_body]
fn random_bytes() -> (r: Result<Vec<u8>, getrandom::Error>)
    ensures
        r matches Ok(b) ==> b@.len() == TOKEN_BYTES,
{
    let mut bytes = [0u8; TOKEN_BYTES];
    getrandom::fill(&mut bytes)?;
    Ok(bytes.to_vec())
}

/// The SHA-256 digest of the UTF-8 bytes of `s`.
pub uninterp spec fn sha256(s: Seq<char>) -> Seq<u8>;

/// `Sha256::digest` of the UTF-8 bytes of `raw`: 32 bytes.
#[verifier::external_body]
fn sha256_digest(raw: &str) -> (r: Vec<u8>)
    ensures
        r@ == sha256(raw@),
        r@.len() == 32,
{
    Sha256::digest(raw.as_bytes()).to_vec()
}

/// Two lowercase hexadecimal digits per byte, high nibble first.
pub open spec fn hex_spec(bytes: Seq<u8>) -> Seq<char> {
    Seq::new(
        2 * bytes.len(),
        |i: int|
            if i % 2 == 0 {
                hex_char((bytes[i / 2] / 16) as int)
            } else {
                hex_char((bytes[i / 2] % 16) as int)
            },
    )
}

/// The lowercase hexadecimal digit for `n` (`0..=15`).
fn hex_digit(n: u8) -> (c: char)
    requires
        n < 16,
    ensures
        c == hex_char(n as int),
{
    if n == 0 {
        '0'
    } else if n == 1 {
        '1'
    } else if n == 2 {
        '2'
    } else if n == 3 {
        '3'
    } else if n == 4 {
        '4'
    } else if n == 5 {
        '5'
    } else if n == 6 {
        '6'
    } else if n == 7 {
        '7'
    } else if n == 8 {
        '8'
    } else if n == 9 {
        '9'
    } else if n == 10 {
        'a'
    } else if n == 11 {
        'b'
    } else if n == 12 {
        'c'
    } else if n == 13 {
        'd'
    } else if n == 14 {
        'e'
    } else {
        'f'
    }
}

/// Hex-encode `bytes`, two lowercase digits per byte.
pub fn hex_encode(bytes: &[u8]) -> (r: String)
    ensures
        r@ == hex_spec(bytes@),
{
    let mut out: Vec<char> = Vec::new();
    let mut i: usize = 0;
    while i < bytes.len()
        invariant
            i <= bytes@.len(),
            out@ == hex_spec(bytes@.take(i as int)),
        decreases bytes.len() - i,
    {
        let b = bytes[i];
        let ghost before = out@;
        out.push(hex_digit(b / 16));
        out.push(hex_digit(b % 16));
        i = i + 1;
        assert forall|k: int| 0 <= k < out@.len() implies out@[k] == hex_spec(
            bytes@.take(i as int),
        )[k] by {
            if k < before.len() {
                assert(before[k] == hex_spec(bytes@.take(i - 1))[k]);
            }
        }
        assert(out@ =~= hex_spec(bytes@.take(i as int)));
    }
    assert(bytes@.take(bytes@.len() as int) =~= bytes@);
    crate::text::string_of(&out)
}

/// Hash a raw token for storage or lookup: SHA-256, hex-encoded.
pub fn hash_token(raw: &str) -> (r: String)
    ensures
        r@ == hex_spec(sha256(raw@)),
{
    let digest = sha256_digest(raw);
    hex_encode(digest.as_slice())
}

/// Generate a new random token and its storage hash; an internal error when
/// the operating system cannot supply randomness.
pub fn generate() -> (r: Result<GeneratedToken, AuthError>)
    ensures
        r matches Ok(t) ==> t.raw@.len() == 2 * TOKEN_BYTES && t.hash@ == hex_spec(sha256(t.raw@)),
        r matches Ok(t) ==> exists|b: Seq<u8>| b.len() == TOKEN_BYTES && t.raw@ == hex_spec(b),
        r matches Err(e) ==> e == AuthError::Internal,
{
    let bytes = match random_bytes() {
        Ok(b) => b,
        Err(_) => return Err(AuthError::Internal),
    };
    let raw = hex_encode(bytes.as_slice());
    assert(raw@ == hex_spec(bytes@));
    let hash = hash_token(raw.as_str());
    Ok(GeneratedToken { raw, hash })
}

} // verus!
