//! Password hashing with Argon2id (the crate's defaults, a random salt per
//! password); hashes are PHC strings. Both operations are deliberately
//! expensive; callers run them off the async workers.

use vstd::prelude::*;

use argon2::{Argon2, PasswordHasher, PasswordVerifier};

use crate::error::AuthError;

verus! {

#[verifier::external_type_specification]
#[verifier::external_body]
pub struct ExPasswordHashError(argon2::password_hash::Error);

/// What `Argon2::default().verify_password` says of `password` against the
/// PHC string `phc`: `Some(true)` on a match, `Some(false)` on a mismatch,
/// `None` when the stored hash cannot be used.
pub uninterp spec fn argon2_verify(password: Seq<char>, phc: Seq<char>) -> Option<bool>;

/// `Argon2::default().hash_password(password)` as a PHC string, with a salt
/// drawn at random. As the crate documents, the password then verifies
/// against that hash; which hash comes out depends on the salt.
#[verifier::external_body]
fn argon2_hash(password: &str) -> (r: Result<String, argon2::password_hash::Error>)
    ensures
        r matches Ok(h) ==> argon2_verify(password@, h@) == Some(true),
{
    Ok(Argon2::default().hash_password(password.as_bytes())?.to_string())
}

/// `Argon2::default().verify_password(password, phc)`: `Ok(true)` on a match,
/// `Ok(false)` on `PasswordInvalid`, the crate's error otherwise.
#[verifier::external_body]
fn argon2_check(password: &str, phc: &str) -> (r: Result<bool, argon2::password_hash::Error>)
    ensures
        r matches Ok(b) ==> argon2_verify(password@, phc@) == Some(b),
        r is Err ==> argon2_verify(password@, phc@) is None,
{
    match Argon2::default().verify_password(password.as_bytes(), phc) {
        Ok(()) => Ok(true),
        Err(argon2::password_hash::Error::PasswordInvalid) => Ok(false),
        Err(err) => Err(err),
    }
}

/// Hash a plaintext password into a PHC string suitable for storage. A
/// password always verifies against the hash made from it.
pub fn hash_password(password: &str) -> (r: Result<String, AuthError>)
    ensures
        r matches Ok(h) ==> argon2_verify(password@, h@) == Some(true),
        r matches Err(e) ==> e == AuthError::Internal,
{
    match argon2_hash(password) {
        Ok(h) => Ok(h),
        Err(_) => Err(AuthError::Internal),
    }
}

/// Check a plaintext password against a stored PHC string: `Ok(false)` for a
/// genuine mismatch, an internal error if the stored hash cannot be used.
pub fn verify_password(password: &str, phc: &str) -> (r: Result<bool, AuthError>)
    ensures
        match argon2_verify(password@, phc@) {
            Some(b) => r == Ok::<bool, AuthError>(b),
            None => r == Err::<bool, AuthError>(AuthError::Internal),
        },
{
    match argon2_check(password, phc) {
        Ok(b) => Ok(b),
        Err(_) => Err(AuthError::Internal),
    }
}

} // verus!
