//! Input validation for the auth server functions: a pragmatic email shape
//! (length bound plus `local@domain.tld`), password length bounds with no
//! composition rules, and an optional display name. Emails are trimmed and
//! lowercased before storage or comparison.

use vstd::prelude::*;

use crate::error::AuthError;
use crate::text::{
    byte_len, lowercase, opt_string_view, opt_view, optional_nonblank_spec, optional_trimmed, split_once,
    split_once_spec, to_lowercase, trim, trim_spec,
};

verus! {

/// Minimum password length, in bytes.
pub const PASSWORD_MIN_LEN: usize = 8;

/// Maximum password length, in bytes.
pub const PASSWORD_MAX_LEN: usize = 1024;

/// Maximum stored email length, in bytes.
pub const EMAIL_MAX_LEN: usize = 254;

/// The canonical form of an email: trimmed and lowercased.
pub open spec fn normalized_email_spec(input: Seq<char>) -> Seq<char> {
    lowercase(trim_spec(input))
}

/// Trim and case-fold an email to the canonical form used for both storage
/// and lookup.
pub fn normalize_email(input: &str) -> (r: String)
    ensures
        r@ == normalized_email_spec(input@),
{
    to_lowercase(trim(input).as_str())
}

/// What [`email`] gives: the canonical form when it is non-empty, at most
/// [`EMAIL_MAX_LEN`] bytes, and has a non-empty part before its first `@`
/// and a `.` after it.
pub open spec fn email_spec(input: Seq<char>) -> Result<Seq<char>, AuthError> {
    let e = normalized_email_spec(input);
    if e.len() == 0 {
        Err(AuthError::InvalidInput("email is required"))
    } else if byte_len(e) > EMAIL_MAX_LEN {
        Err(AuthError::InvalidInput("email is too long"))
    } else {
        match split_once_spec(e, '@') {
            Some(p) => if p.0.len() > 0 && p.1.contains('.') {
                Ok(e)
            } else {
                Err(AuthError::InvalidInput("email is not valid"))
            },
            None => Err(AuthError::InvalidInput("email is not valid")),
        }
    }
}

/// Whether `s` contains `c`.
fn contains_char(s: &str, c: char) -> (r: bool)
    ensures
        r == s@.contains(c),
{
    let v = crate::text::chars_of(s);
    let mut i: usize = 0;
    while i < v.len()
        invariant
            i <= v@.len(),
            v@ == s@,
            forall|j: int| 0 <= j < i ==> v@[j] != c,
        decreases v.len() - i,
    {
        if v[i] == c {
            assert(s@[i as int] == c);
            return true;
        }
        i = i + 1;
    }
    false
}

/// Normalize an email and check it has a minimally plausible shape.
pub fn email(input: &str) -> (r: Result<String, AuthError>)
    ensures
        match email_spec(input@) {
            Ok(e) => r matches Ok(x) && x@ == e,
            Err(e) => r == Err::<String, AuthError>(e),
        },
{
    let email = normalize_email(input);
    if email.as_str().is_empty() {
        return Err(AuthError::InvalidInput("email is required"));
    }
    if email.as_str().len() > EMAIL_MAX_LEN {
        return Err(AuthError::InvalidInput("email is too long"));
    }
    match split_once(email.as_str(), '@') {
        Some((local, domain)) => {
            if !local.as_str().is_empty() && contains_char(domain.as_str(), '.') {
                Ok(email)
            } else {
                Err(AuthError::InvalidInput("email is not valid"))
            }
        },
        None => Err(AuthError::InvalidInput("email is not valid")),
    }
}

/// What [`password`] accepts: between [`PASSWORD_MIN_LEN`] and
/// [`PASSWORD_MAX_LEN`] bytes.
pub open spec fn password_spec(input: Seq<char>) -> Result<(), AuthError> {
    if byte_len(input) < PASSWORD_MIN_LEN {
        Err(AuthError::InvalidInput("password is too short"))
    } else if byte_len(input) > PASSWORD_MAX_LEN {
        Err(AuthError::InvalidInput("password is too long"))
    } else {
        Ok(())
    }
}

/// Check the password length bounds; no composition rules are imposed.
pub fn password(input: &str) -> (r: Result<(), AuthError>)
    ensures
        r == password_spec(input@),
{
    if input.len() < PASSWORD_MIN_LEN {
        return Err(AuthError::InvalidInput("password is too short"));
    }
    if input.len() > PASSWORD_MAX_LEN {
        return Err(AuthError::InvalidInput("password is too long"));
    }
    Ok(())
}

/// Normalise an optional display name: trim, and treat blank as absent.
pub fn display_name(input: Option<&str>) -> (r: Option<String>)
    ensures
        opt_string_view(r) == optional_nonblank_spec(opt_view(input)),
{
    optional_trimmed(input)
}

} // verus!
