//! The decisions of the account endpoints: who may read or change which
//! record, what a registration, login or patch turns into, and how a token
//! is issued. The endpoints themselves run these around the store calls.

use vstd::prelude::*;
use super::model::{register_error, login_error, user_update_error, LoginInput, RegisterInput, User, UserUpdate};
use crate::auth::jwt::{
    hs256_payload, role_name, role_of_name, token_ttl_seconds, Claims, JwtSecret, Role,
};
use crate::auth::password::{hash_password, password_check, verify_password};
use crate::auth::payload::claims_json;
use crate::clock::{clock_unavailable, now_seconds, unavailable};
use crate::error::{AppError, AppResult};
use crate::text::{trim, trimmed};

verus! {

/// A new account as it goes to the store: trimmed email, PHC password
/// hash, role string.
pub struct NewAccount {
    pub email: String,
    pub password_hash: String,
    pub role: String,
}

/// A patch as it goes to the store: each `None` leaves the field untouched.
pub struct AccountPatch {
    pub email: Option<String>,
    pub password_hash: Option<String>,
    pub role: Option<String>,
}

/// Whether the holder of `claims` may act on the user record `target`:
/// admins on any, everyone on their own.
pub open spec fn may_access(claims: Claims, target: u128) -> bool {
    claims.role == Role::Admin || claims.sub == target
}

/// Law: every caller may act on their own record, and an admin on any.
pub proof fn law_self_and_admin_access(claims: Claims, target: u128)
    ensures
        may_access(claims, claims.sub),
        claims.role == Role::Admin ==> may_access(claims, target),
        claims.role != Role::Admin && claims.sub != target ==> !may_access(claims, target),
{
}

/// Admins pass unconditionally; anyone else only for their own record.
pub fn require_self_or_admin(claims: &Claims, target: u128) -> (r: AppResult<()>)
    ensures
        may_access(*claims, target) ==> r is Ok,
        !may_access(*claims, target) ==> (r matches Err(AppError::Forbidden(m)) && m@
            == "may only access your own user record"@),
{
    if claims.role.is_admin() || claims.sub == target {
        Ok(())
    } else {
        Err(AppError::Forbidden("may only access your own user record".to_owned()))
    }
}

/// Turns a registration into a new `User` account: the input is validated
/// (`Validation` with the first problem), the email trimmed, the password
/// hashed. Only a failure of the hasher can refuse a valid input.
pub fn prepare_registration(input: &RegisterInput) -> (r: AppResult<NewAccount>)
    ensures
        register_error(*input) matches Some(m) ==> (r matches Err(AppError::Validation(e)) && e@
            == m),
        register_error(*input) is None ==> match r {
            Ok(a) => a.email@ == trimmed(input.email@) && password_check(
                input.password@,
                a.password_hash@,
            ) == Some(true) && "$argon2id$"@.is_prefix_of(a.password_hash@) && a.role@ == role_name(
                Role::User,
            ),
            Err(e) => e is Internal,
        },
{
    if let Err(m) = input.validate() {
        return Err(AppError::Validation(m));
    }
    let email = trim(input.email.as_str()).to_owned();
    let password_hash = hash_password(input.password.as_str())?;
    Ok(NewAccount { email, password_hash, role: Role::User.as_str().to_owned() })
}

/// The email a login looks up: the input is validated (`Validation` with
/// the first problem) and the email trimmed.
pub fn login_email(input: &LoginInput) -> (r: AppResult<String>)
    ensures
        login_error(*input) matches Some(m) ==> (r matches Err(AppError::Validation(e)) && e@ == m),
        login_error(*input) is None ==> (r matches Ok(e) && e@ == trimmed(input.email@)),
{
    if let Err(m) = input.validate() {
        return Err(AppError::Validation(m));
    }
    Ok(trim(input.email.as_str()).to_owned())
}

/// The message every refused login is answered with, whether the email is
/// unknown or the password wrong.
pub open spec fn invalid_credentials_message() -> Seq<char> {
    "invalid credentials"@
}

/// Checks `password` against the account the login found (if any): an
/// unknown email and a wrong password are the same `Unauthorized`; a
/// stored hash that cannot be checked is an internal error.
pub fn check_credentials(password: &str, found: Option<User>) -> (r: AppResult<User>)
    ensures
        found is None ==> (r matches Err(AppError::Unauthorized(m)) && m@
            == invalid_credentials_message()),
        found matches Some(u) ==> match password_check(password@, u.password_hash@) {
            Some(true) => r matches Ok(v) && v == u,
            Some(false) => r matches Err(AppError::Unauthorized(m)) && m@
                == invalid_credentials_message(),
            None => r matches Err(e) && e is Internal,
        },
{
    let user = match found {
        Some(u) => u,
        None => {
            return Err(AppError::Unauthorized("invalid credentials".to_owned()));
        },
    };
    if !verify_password(password, user.password_hash.as_str())? {
        return Err(AppError::Unauthorized("invalid credentials".to_owned()));
    }
    Ok(user)
}

/// The role string a patch sets, if any.
pub open spec fn patch_role(input: UserUpdate) -> Option<Seq<char>> {
    match input.role {
        Some(r) => Some(role_name(r)),
        None => None,
    }
}

/// The email a patch sets, trimmed, if any.
pub open spec fn patch_email(input: UserUpdate) -> Option<Seq<char>> {
    match input.email {
        Some(e) => Some(trimmed(e@)),
        None => None,
    }
}

/// The view of an optional string.
pub open spec fn opt_view(o: Option<String>) -> Option<Seq<char>> {
    match o {
        Some(s) => Some(s@),
        None => None,
    }
}

/// Turns a patch of the user `id` by the holder of `claims` into what the
/// store is asked to change. Checked in order: access to the record
/// (`Forbidden`), the input (`Validation`), a role change by a non-admin
/// (`Forbidden`). A new email is trimmed, a new password hashed, a new role
/// written as its string.
pub fn plan_user_update(claims: &Claims, id: u128, input: &UserUpdate) -> (r: AppResult<AccountPatch>)
    ensures
        r is Ok ==> (claims.role == Role::Admin || claims.sub == id),
        r is Ok ==> (input.role is Some ==> claims.role == Role::Admin),
        r matches Ok(p) ==> ((input.email matches Some(e) ==> (p.email matches Some(x) && x@ == trimmed(
            e@,
        ))) && (input.email is None ==> p.email is None) && (input.role matches Some(x) ==> (
        p.role matches Some(y) && y@ == role_name(x))) && (input.role is None ==> p.role is None) && (
        input.password is None ==> p.password_hash is None)),
        !may_access(*claims, id) ==> (r matches Err(AppError::Forbidden(m)) && m@
            == "may only access your own user record"@),
        may_access(*claims, id) ==> (user_update_error(*input) matches Some(m) ==> (r matches Err(
            AppError::Validation(e),
        ) && e@ == m)),
        may_access(*claims, id) && user_update_error(*input) is None && input.role is Some
            && claims.role != Role::Admin ==> (r matches Err(AppError::Forbidden(m)) && m@
            == "only admins can change role"@),
        may_access(*claims, id) && user_update_error(*input) is None && !(input.role is Some
            && claims.role != Role::Admin) ==> match r {
            Ok(p) => opt_view(p.email) == patch_email(*input) && opt_view(p.role) == patch_role(
                *input,
            ) && (input.password is None ==> p.password_hash is None) && (input.password matches Some(
                pw,
            ) ==> (p.password_hash matches Some(h) && password_check(pw@, h@) == Some(true)
                && "$argon2id$"@.is_prefix_of(h@))),
            Err(e) => e is Internal && input.password is Some,
        },
{
    require_self_or_admin(claims, id)?;
    if let Err(m) = input.validate() {
        return Err(AppError::Validation(m));
    }
    if input.role.is_some() && !claims.role.is_admin() {
        return Err(AppError::Forbidden("only admins can change role".to_owned()));
    }
    let email = match &input.email {
        Some(e) => Some(trim(e.as_str()).to_owned()),
        None => None,
    };
    let role = match &input.role {
        Some(r) => Some(r.as_str().to_owned()),
        None => None,
    };
    let password_hash = match &input.password {
        Some(p) => Some(hash_password(p.as_str())?),
        None => None,
    };
    Ok(AccountPatch { email, password_hash, role })
}

/// An admin may delete any account but their own: deleting oneself is a
/// `Conflict`, so the gallery cannot be left without an administrator.
pub fn guard_user_delete(claims: &Claims, id: u128) -> (r: AppResult<()>)
    ensures
        claims.sub == id ==> (r matches Err(AppError::Conflict(m)) && m@
            == "admins cannot delete their own account"@),
        claims.sub != id ==> r is Ok,
{
    if claims.sub == id {
        return Err(AppError::Conflict("admins cannot delete their own account".to_owned()));
    }
    Ok(())
}

/// Issues the token for `user` at time `now` (seconds): its stored role
/// must be one the app knows (else an internal error); the token carries
/// the user's id, email and role, is issued at `now`, expires a day later,
/// and decodes under `secret` to exactly those claims.
pub fn issue_token_at(secret: &JwtSecret, user: &User, now: i64) -> (r: AppResult<String>)
    requires
        -10_000_000_000_000 <= now <= 10_000_000_000_000,
    ensures
        role_of_name(user.role@) is None ==> (r matches Err(AppError::Internal(m)) && m@
            == "unexpected role in DB: "@ + user.role@),
        role_of_name(user.role@) matches Some(role) ==> (r matches Ok(t) && exists|c: Claims|
            #![trigger claims_json(c)]
            c.sub == user.id && c.email@ == user.email@ && c.role == role && c.iat == now && c.exp
                == now + token_ttl_seconds() && hs256_payload(t@, secret.secret()) == Some(
                claims_json(c),
            )),
{
    let role = Role::from_db_str(user.role.as_str())?;
    let claims = Claims::issued_at(user.id, user.email.clone(), role, now);
    let r = secret.encode(&claims);
    proof {
        assert(hs256_payload(r->Ok_0@, secret.secret()) == Some(claims_json(claims)));
    }
    r
}

/// Issues a fresh token for `user`, issued now: as `issue_token_at` at the
/// current time; an unreadable clock is an internal error.
pub fn issue_token(secret: &JwtSecret, user: &User) -> (r: AppResult<String>)
    ensures
        role_of_name(user.role@) is None ==> (r matches Err(AppError::Internal(m)) && m@
            == "unexpected role in DB: "@ + user.role@),
        role_of_name(user.role@) matches Some(role) ==> unavailable(r) || (r matches Ok(t) && exists|
            c: Claims,
        |
            #![trigger claims_json(c)]
            c.sub == user.id && c.email@ == user.email@ && c.role == role && c.exp == c.iat
                + token_ttl_seconds() && hs256_payload(t@, secret.secret()) == Some(claims_json(c))),
{
    let role = Role::from_db_str(user.role.as_str())?;
    let now = match now_seconds() {
        Some(t) => t,
        None => {
            return Err(clock_unavailable());
        },
    };
    issue_token_at(secret, user, now)
}

} // verus!
