//! Argon2id password hashing and verification.

use vstd::prelude::*;
use argon2::password_hash::{PasswordHasher, PasswordVerifier};
use crate::clock::{random_bytes, random_unavailable, random_unavailable_message};
use crate::error::{AppError, AppResult};
use crate::text::push_str;

verus! {

/// The error type of the `password-hash` crate that `argon2` reports with.
#[verifier::external_type_specification]
#[verifier::external_body]
pub struct ExPasswordHashError(argon2::password_hash::Error);

/// Whether `PasswordHash::new` accepts `phc` as a PHC string.
pub uninterp spec fn phc_parses(phc: Seq<char>) -> bool;

/// What `Argon2::default().verify_password` says of `plain` against the
/// parsed PHC string `phc`: `Some(true)` when it matches, `Some(false)` when
/// it reports a wrong password, `None` for any other failure.
pub uninterp spec fn argon2_verdict(plain: Seq<char>, phc: Seq<char>) -> Option<bool>;

/// What verifying `plain` against the stored `phc` gives: `None` when the
/// stored string does not parse or verification fails for another reason
/// than a wrong password.
pub open spec fn password_check(plain: Seq<char>, phc: Seq<char>) -> Option<bool> {
    if phc_parses(phc) {
        argon2_verdict(plain, phc)
    } else {
        None
    }
}

/// The PHC string `Argon2::default().hash_password` makes of `plain` with
/// the salt whose bytes are `salt`.
pub uninterp spec fn argon2_phc(plain: Seq<char>, salt: Seq<u8>) -> Seq<char>;

/// `Argon2::default().hash_password(plain, &SaltString::encode_b64(&salt)?)`,
/// as its PHC string, named `argon2_phc(plain, salt)`. What is also stated
/// is what the `PasswordHasher` / `PasswordVerifier` pair and the PHC format
/// give: the string starts with the algorithm `$argon2id$` (the default),
/// it parses, and verifying `plain` against it with the same default
/// parameters succeeds.
#[verifier::external_body]
fn argon2_hash(plain: &str, salt: [u8; 16]) -> (r: Result<String, argon2::password_hash::Error>)
    ensures
        r matches Ok(h) ==> h@ == argon2_phc(plain@, salt@) && "$argon2id$"@.is_prefix_of(h@)
            && phc_parses(h@) && argon2_verdict(plain@, h@) == Some(true),
{
    let salt = argon2::password_hash::SaltString::encode_b64(&salt)?;
    argon2::Argon2::default().hash_password(plain.as_bytes(), &salt).map(|h| h.to_string())
}

/// `PasswordHash::new(phc)`, reduced to whether it parses; the outcome is
/// named `phc_parses(phc)`. Also stated: a text that does not start with
/// the `$` separator (an empty one included) is refused.
#[verifier::external_body]
fn phc_parse(phc: &str) -> (r: Result<(), argon2::password_hash::Error>)
    ensures
        r is Ok <==> phc_parses(phc@),
        !(phc@.len() > 0 && phc@[0] == '$') ==> r is Err,
{
    argon2::password_hash::PasswordHash::new(phc).map(|_| ())
}

/// `Argon2::default().verify_password(plain, &PasswordHash::new(phc)?)`:
/// `Ok(true)` on a match, `Ok(false)` on `Error::Password`, the error
/// otherwise; the outcome is named `argon2_verdict(plain, phc)`.
#[verifier::external_body]
fn argon2_verify(plain: &str, phc: &str) -> (r: Result<bool, argon2::password_hash::Error>)
    requires
        phc_parses(phc@),
    ensures
        match r {
            Ok(b) => argon2_verdict(plain@, phc@) == Some(b),
            Err(_) => argon2_verdict(plain@, phc@) is None,
        },
{
    let parsed = argon2::password_hash::PasswordHash::new(phc)?;
    match argon2::Argon2::default().verify_password(plain.as_bytes(), &parsed) {
        Ok(()) => Ok(true),
        Err(argon2::password_hash::Error::Password) => Ok(false),
        Err(e) => Err(e),
    }
}

/// The `Display` text of a `password-hash` error. Nothing is stated of it.
#[verifier::external_body]
fn password_error_text(e: &argon2::password_hash::Error) -> (r: String) {
    e.to_string()
}

/// An internal error whose message is `prefix` followed by the text of `e`.
fn internal_with(prefix: &str, e: &argon2::password_hash::Error) -> (r: AppError)
    ensures
        r matches AppError::Internal(m) && prefix@.is_prefix_of(m@),
{
    let mut m = prefix.to_owned();
    push_str(&mut m, password_error_text(e).as_str());
    AppError::Internal(m)
}

/// Hashes a plaintext password with Argon2id and the default parameters
/// under a fresh random salt, as a self-describing PHC string that starts
/// with `$argon2id$`. Verifying the same password against the result gives
/// `Ok(true)`. Without random bytes for the salt it is an internal error.
pub fn hash_password(plain: &str) -> (r: AppResult<String>)
    ensures
        r matches Ok(h) ==> password_check(plain@, h@) == Some(true) && "$argon2id$"@.is_prefix_of(
            h@,
        ),
        r matches Err(e) ==> (e matches AppError::Internal(m) && ("argon2 hash failed: "@.is_prefix_of(
            m@,
        ) || m@ == random_unavailable_message())),
{
    let salt = match random_bytes() {
        Some(b) => b,
        None => {
            return Err(random_unavailable());
        },
    };
    match argon2_hash(plain, salt) {
        Ok(h) => Ok(h),
        Err(e) => Err(internal_with("argon2 hash failed: ", &e)),
    }
}

/// Verifies a plaintext password against a stored PHC string: `Ok(true)`
/// on a match, `Ok(false)` on a wrong password; a stored string that does
/// not parse (any text not starting with `$` among them), or any other
/// failure, is an internal error.
pub fn verify_password(plain: &str, phc_hash: &str) -> (r: AppResult<bool>)
    ensures
        !(phc_hash@.len() > 0 && phc_hash@[0] == '$') ==> (r matches Err(AppError::Internal(m))
            && "stored password hash is invalid: "@.is_prefix_of(m@)),
        !phc_parses(phc_hash@) ==> (r matches Err(AppError::Internal(m))
            && "stored password hash is invalid: "@.is_prefix_of(m@)),
        phc_parses(phc_hash@) ==> match argon2_verdict(plain@, phc_hash@) {
            Some(b) => r == Ok::<bool, AppError>(b),
            None => r matches Err(AppError::Internal(m)) && "argon2 verify failed: "@.is_prefix_of(m@),
        },
{
    if let Err(e) = phc_parse(phc_hash) {
        return Err(internal_with("stored password hash is invalid: ", &e));
    }
    match argon2_verify(plain, phc_hash) {
        Ok(b) => Ok(b),
        Err(e) => Err(internal_with("argon2 verify failed: ", &e)),
    }
}

} // verus!
