//! The session cookie, `finall_session`, holding the raw opaque token:
//! `HttpOnly` and `SameSite=Lax` always, `Secure` wherever the deployment
//! asks for it.

use vstd::prelude::*;

use crate::auth::session::SESSION_TTL_DAYS;
use crate::date::{nat_digits, nat_text};
use crate::error::AuthError;
use crate::text::{
    append, split_char, split_once, split_once_spec, split_spec, str_eq, string_of, string_texts,
    trim, trim_spec,
};

verus! {

/// The name of the session cookie.
pub const COOKIE_NAME: &'static str = "finall_session";

/// Whether every byte of the UTF-8 text `s` is allowed in an HTTP header
/// value (the rule `http::HeaderValue::from_str` applies): a tab, or a byte
/// of at least 32 other than 127. Every byte of a multi-byte character is at
/// least 128, so the rule can be read character by character.
pub open spec fn header_text_ok(s: Seq<char>) -> bool {
    forall|i: int| 0 <= i < s.len() ==> (#[trigger] s[i] == '\t' || (s[i] as u32 >= 32 && s[i] as u32 != 127))
}

/// Whether `s` can be carried as an HTTP header value.
pub fn header_safe(s: &str) -> (r: bool)
    ensures
        r == header_text_ok(s@),
{
    let v = crate::text::chars_of(s);
    let mut i: usize = 0;
    while i < v.len()
        invariant
            i <= v@.len(),
            v@ == s@,
            forall|j: int| 0 <= j < i ==> (#[trigger] s@[j] == '\t' || (s@[j] as u32 >= 32 && s@[j] as u32 != 127)),
        decreases v.len() - i,
    {
        let c = v[i];
        let code = c as u32;
        if !(c == '\t' || (code >= 32 && code != 127)) {
            assert(s@[i as int] == c);
            return false;
        }
        i = i + 1;
    }
    true
}

/// The `Set-Cookie` text that stores `token` for the full session lifetime.
pub open spec fn build_text(token: Seq<char>, secure: bool) -> Seq<char> {
    "finall_session="@ + token + "; Max-Age="@ + nat_digits(2592000) + "; Path=/; HttpOnly; SameSite=Lax"@
        + if secure {
        "; Secure"@
    } else {
        Seq::empty()
    }
}

/// The `Set-Cookie` text that immediately clears the session cookie.
pub open spec fn clear_text(secure: bool) -> Seq<char> {
    "finall_session=; Max-Age=0; Path=/; HttpOnly; SameSite=Lax"@ + if secure {
        "; Secure"@
    } else {
        Seq::empty()
    }
}

/// Append `"; Secure"` when the cookie must only travel over HTTPS.
fn secure_suffix(s: &mut String, secure: bool)
    ensures
        final(s)@ == old(s)@ + if secure {
            "; Secure"@
        } else {
            Seq::empty()
        },
{
    if secure {
        append(s, "; Secure");
    } else {
        assert(old(s)@ + Seq::<char>::empty() =~= old(s)@);
    }
}

/// The `Set-Cookie` text that stores `token` for the full session lifetime
/// (`Secure` when `secure`); an internal error when the token holds a byte
/// a header cannot carry.
pub fn build(token: &str, secure: bool) -> (r: Result<String, AuthError>)
    ensures
        r is Ok <==> header_text_ok(build_text(token@, secure)),
        r matches Ok(t) ==> t@ == build_text(token@, secure),
        r matches Err(e) ==> e == AuthError::Internal,
{
    let max_age: u64 = (SESSION_TTL_DAYS as u64) * 24 * 60 * 60;
    let mut s = String::new();
    append(&mut s, COOKIE_NAME);
    append(&mut s, "=");
    append(&mut s, token);
    append(&mut s, "; Max-Age=");
    let digits = nat_text(max_age);
    append(&mut s, string_of(&digits).as_str());
    append(&mut s, "; Path=/; HttpOnly; SameSite=Lax");
    secure_suffix(&mut s, secure);
    proof {
        reveal_strlit("finall_session");
        reveal_strlit("=");
        reveal_strlit("finall_session=");
    }
    assert(s@ =~= build_text(token@, secure));
    if header_safe(s.as_str()) {
        Ok(s)
    } else {
        Err(AuthError::Internal)
    }
}

/// The `Set-Cookie` text that immediately clears the session cookie.
pub fn clear(secure: bool) -> (r: String)
    ensures
        r@ == clear_text(secure),
        header_text_ok(r@),
{
    let mut s = String::new();
    append(&mut s, "finall_session=; Max-Age=0; Path=/; HttpOnly; SameSite=Lax");
    secure_suffix(&mut s, secure);
    assert(s@ =~= clear_text(secure));
    proof {
        reveal_strlit("finall_session=; Max-Age=0; Path=/; HttpOnly; SameSite=Lax");
        reveal_strlit("; Secure");
    }
    s
}

/// The token among the first `n` `;`-separated pieces: the trimmed value of
/// the first `name=value` piece whose trimmed name is the cookie's.
pub open spec fn token_among(pieces: Seq<Seq<char>>, n: nat) -> Option<Seq<char>>
    decreases n,
{
    if n == 0 {
        None
    } else {
        match token_among(pieces, (n - 1) as nat) {
            Some(t) => Some(t),
            None => match split_once_spec(pieces[n - 1], '=') {
                Some(p) => if trim_spec(p.0) == COOKIE_NAME@ {
                    Some(trim_spec(p.1))
                } else {
                    None
                },
                None => None,
            },
        }
    }
}

proof fn lemma_token_stays(pieces: Seq<Seq<char>>, i: nat, n: nat)
    requires
        i <= n,
        token_among(pieces, i) is Some,
    ensures
        token_among(pieces, n) == token_among(pieces, i),
    decreases n - i,
{
    if i < n {
        lemma_token_stays(pieces, i, (n - 1) as nat);
    }
}

/// Extract the session token from a `Cookie` request header value.
pub fn read_token(cookie_header: &str) -> (r: Option<String>)
    ensures
        match token_among(split_spec(cookie_header@, ';'), split_spec(cookie_header@, ';').len()) {
            None => r is None,
            Some(t) => r matches Some(x) && x@ == t,
        },
{
    let pieces = split_char(cookie_header, ';');
    let ghost ps = string_texts(pieces@);
    let mut i: usize = 0;
    while i < pieces.len()
        invariant
            i <= pieces@.len(),
            ps == string_texts(pieces@),
            ps == split_spec(cookie_header@, ';'),
            token_among(ps, i as nat) is None,
        decreases pieces.len() - i,
    {
        assert(ps[i as int] == pieces@[i as int]@);
        if let Some((name, value)) = split_once(pieces[i].as_str(), '=') {
            if str_eq(trim(name.as_str()).as_str(), COOKIE_NAME) {
                proof {
                    lemma_token_stays(ps, (i + 1) as nat, ps.len());
                }
                return Some(trim(value.as_str()));
            }
        }
        i = i + 1;
    }
    None
}

} // verus!
