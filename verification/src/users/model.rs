//! Domain model of a user account and the validation of account input.

use vstd::prelude::*;
use crate::auth::jwt::Role;
use crate::text::{chars_of, contains_char, is_blank, lemma_trimmed_empty_iff_blank, trim, trimmed};

verus! {

/// A user as stored. `password_hash` is the PHC string of the password,
/// never the password itself; `role` is the stored role string.
#[derive(Debug, Clone)]
pub struct User {
    pub id: u128,
    pub email: String,
    pub password_hash: String,
    pub role: String,
    pub created_at: i64,
    pub updated_at: i64,
}

/// Request body of registration.
#[derive(Debug, Clone)]
pub struct RegisterInput {
    pub email: String,
    pub password: String,
}

/// Request body of login.
#[derive(Debug, Clone)]
pub struct LoginInput {
    pub email: String,
    pub password: String,
}

/// What registration and login answer with: the issued token and the
/// account it was issued for.
#[derive(Debug, Clone)]
pub struct AuthResponse {
    pub token: String,
    pub user: User,
}

/// Patch for a user: every field optional; absent fields stay untouched.
#[derive(Debug, Clone)]
pub struct UserUpdate {
    pub email: Option<String>,
    pub password: Option<String>,
    pub role: Option<Role>,
}

/// The message an email is rejected with, or `None`: after trimming it must
/// be non-empty and contain both an `@` and a `.`.
pub open spec fn email_error(email: Seq<char>) -> Option<Seq<char>> {
    if trimmed(email).len() == 0 {
        Some("email cannot be empty"@)
    } else if !(trimmed(email).contains('@') && trimmed(email).contains('.')) {
        Some("email must look like 'name@host.tld'"@)
    } else {
        None
    }
}

/// The message a password is rejected with, or `None`: it must be at least
/// 8 characters long.
pub open spec fn password_error(password: Seq<char>) -> Option<Seq<char>> {
    if password.len() < 8 {
        Some("password must be at least 8 characters"@)
    } else {
        None
    }
}

/// Checks the shape of an email address.
pub fn validate_email(email: &str) -> (r: Result<(), String>)
    ensures
        match email_error(email@) {
            Some(m) => r matches Err(e) && e@ == m,
            None => r is Ok,
        },
        r is Ok <==> (trimmed(email@).contains('@') && trimmed(email@).contains('.')),
{
    proof {
        law_email_accepted(email@);
    }
    let t = trim(email);
    if t.is_empty() {
        return Err("email cannot be empty".to_owned());
    }
    if !(contains_char(t, '@') && contains_char(t, '.')) {
        return Err("email must look like 'name@host.tld'".to_owned());
    }
    Ok(())
}

/// Checks the length of a password.
pub fn validate_password(password: &str) -> (r: Result<(), String>)
    ensures
        match password_error(password@) {
            Some(m) => r matches Err(e) && e@ == m,
            None => r is Ok,
        },
        r is Ok <==> password@.len() >= 8,
{
    if chars_of(password).len() < 8 {
        return Err("password must be at least 8 characters".to_owned());
    }
    Ok(())
}

/// The message a registration is rejected with, or `None`.
pub open spec fn register_error(i: RegisterInput) -> Option<Seq<char>> {
    if email_error(i.email@) is Some {
        email_error(i.email@)
    } else {
        password_error(i.password@)
    }
}

/// The message a login is rejected with, or `None`: neither the trimmed
/// email nor the password may be empty.
pub open spec fn login_error(i: LoginInput) -> Option<Seq<char>> {
    if trimmed(i.email@).len() == 0 {
        Some("email cannot be empty"@)
    } else if i.password@.len() == 0 {
        Some("password cannot be empty"@)
    } else {
        None
    }
}

/// The message a user patch is rejected with, or `None`: a given email and
/// a given password are checked as at registration.
pub open spec fn user_update_error(u: UserUpdate) -> Option<Seq<char>> {
    if u.email is Some && email_error(u.email->0@) is Some {
        email_error(u.email->0@)
    } else if u.password is Some {
        password_error(u.password->0@)
    } else {
        None
    }
}

/// Law: an email is accepted exactly when, trimmed of white space, it
/// holds both an `@` and a `.` (so it is not empty either).
pub proof fn law_email_accepted(e: Seq<char>)
    ensures
        email_error(e) is None <==> (trimmed(e).contains('@') && trimmed(e).contains('.')),
{
    if trimmed(e).contains('@') {
        assert(trimmed(e).len() > 0);
    }
}

/// Law: a password is accepted exactly when it has at least 8 characters.
pub proof fn law_password_accepted(p: Seq<char>)
    ensures
        password_error(p) is None <==> p.len() >= 8,
{
}

/// Law: a registration is accepted exactly when its email is (trimmed, it
/// holds an `@` and a `.`) and its password has at least 8 characters.
pub proof fn law_registration_accepted(i: RegisterInput)
    ensures
        register_error(i) is None <==> ((trimmed(i.email@).contains('@') && trimmed(i.email@).contains('.')) && i.password@.len() >= 8),
{
    law_email_accepted(i.email@);
}

/// Law: a patch is accepted exactly when each field it gives is: a given
/// email, trimmed, holds an `@` and a `.`, and a given password has at
/// least 8 characters. A short password is refused whatever else the patch
/// gives.
pub proof fn law_patch_accepted(u: UserUpdate)
    ensures
        user_update_error(u) is None <==> ((u.email matches Some(e) ==> (trimmed(e@).contains('@') && trimmed(e@).contains('.'))) && (
        u.password matches Some(p) ==> p@.len() >= 8)),
        u.password matches Some(p) && p@.len() < 8 ==> user_update_error(u) is Some,
{
    if let Some(e) = u.email {
        law_email_accepted(e@);
    }
}

impl RegisterInput {
    /// Email shape, then password length.
    pub fn validate(&self) -> (r: Result<(), String>)
        ensures
            match register_error(*self) {
                Some(m) => r matches Err(e) && e@ == m,
                None => r is Ok,
            },
            r is Ok <==> ((trimmed(self.email@).contains('@') && trimmed(self.email@).contains('.')) && self.password@.len() >= 8),
    {
        proof {
            law_registration_accepted(*self);
        }
        validate_email(self.email.as_str())?;
        validate_password(self.password.as_str())?;
        Ok(())
    }
}

/// Law: a login is accepted exactly when its email is not blank and its
/// password is not empty.
pub proof fn law_login_accepted(i: LoginInput)
    ensures
        login_error(i) is None <==> (!is_blank(i.email@) && i.password@.len() > 0),
{
    lemma_trimmed_empty_iff_blank(i.email@);
}

impl LoginInput {
    /// Neither field may be empty.
    pub fn validate(&self) -> (r: Result<(), String>)
        ensures
            match login_error(*self) {
                Some(m) => r matches Err(e) && e@ == m,
                None => r is Ok,
            },
            r is Ok <==> (!is_blank(self.email@) && self.password@.len() > 0),
    {
        proof {
            law_login_accepted(*self);
        }
        if trim(self.email.as_str()).is_empty() {
            return Err("email cannot be empty".to_owned());
        }
        if self.password.as_str().is_empty() {
            return Err("password cannot be empty".to_owned());
        }
        Ok(())
    }
}

impl UserUpdate {
    /// A given email and password are checked as at registration.
    pub fn validate(&self) -> (r: Result<(), String>)
        ensures
            match user_update_error(*self) {
                Some(m) => r matches Err(e) && e@ == m,
                None => r is Ok,
            },
            r is Ok <==> ((self.email matches Some(e) ==> (trimmed(e@).contains('@') && trimmed(e@).contains('.'))) && (self.password matches Some(
                p,
            ) ==> p@.len() >= 8)),
            self.password matches Some(p) && p@.len() < 8 ==> r is Err,
    {
        proof {
            law_patch_accepted(*self);
        }
        if let Some(email) = &self.email {
            validate_email(email.as_str())?;
        }
        if let Some(password) = &self.password {
            validate_password(password.as_str())?;
        }
        Ok(())
    }
}

} // verus!
