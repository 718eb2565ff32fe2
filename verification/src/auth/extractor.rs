//! The checks that gate protected routes: a bearer token that verifies,
//! and, for administration, the Admin role.

use vstd::prelude::*;
use super::jwt::{invalid_token_message, token_claims, Claims, JwtSecret, Role};
use crate::clock::{clock_unavailable, now_seconds};
use crate::error::{AppError, AppResult};
use crate::text::strip_prefix;

verus! {

/// The scheme word an `Authorization` header value starts with.
pub open spec fn bearer_prefix() -> Seq<char> {
    "Bearer "@
}

/// The token part of an `Authorization` header value that starts with the
/// bearer prefix.
pub open spec fn bearer_token(h: Seq<char>) -> Seq<char> {
    h.subrange(bearer_prefix().len() as int, h.len() as int)
}

/// The claims an `Authorization` header value (absent, or not text, as
/// `None`) grants at time `now` under `secret`, or the message of the
/// `Unauthorized` it is refused with.
pub open spec fn header_claims(header: Option<Seq<char>>, secret: Seq<u8>, now: int) -> Result<
    super::jwt::ClaimsView,
    Seq<char>,
> {
    match header {
        None => Err("missing Authorization header"@),
        Some(h) => if !bearer_prefix().is_prefix_of(h) {
            Err("expected 'Bearer <token>'"@)
        } else {
            match token_claims(bearer_token(h), secret, now) {
                Some(v) => Ok(v),
                None => Err(invalid_token_message()),
            }
        },
    }
}

/// An authenticated caller: one that presented a valid, unexpired token.
pub struct AuthUser {
    pub claims: Claims,
}

/// A caller with a valid token and the Admin role.
pub struct AdminUser {
    pub claims: Claims,
}

impl AuthUser {
    /// Authenticates the `Authorization` header value `header` at time `now`
    /// (seconds): it must be present, start with `Bearer `, and carry a
    /// token that verifies; each failure is `Unauthorized` with its own
    /// message.
    pub fn from_header_at(secret: &JwtSecret, header: Option<&str>, now: i64) -> (r: AppResult<
        AuthUser,
    >)
        ensures
            match header_claims(
                match header {
                    Some(h) => Some(h@),
                    None => None,
                },
                secret.secret(),
                now as int,
            ) {
                Ok(v) => r matches Ok(a) && a.claims@ == v,
                Err(msg) => r matches Err(AppError::Unauthorized(m)) && m@ == msg,
            },
    {
        let value = match header {
            Some(h) => h,
            None => {
                return Err(AppError::Unauthorized("missing Authorization header".to_owned()));
            },
        };
        let token = match strip_prefix(value, "Bearer ") {
            Some(t) => t,
            None => {
                return Err(AppError::Unauthorized("expected 'Bearer <token>'".to_owned()));
            },
        };
        proof {
            reveal_strlit("Bearer ");
        }
        let claims = secret.decode_at(token.as_str(), now)?;
        Ok(AuthUser { claims })
    }

    /// Authenticates the `Authorization` header value against the current
    /// time; an unreadable clock is an internal error.
    pub fn from_header(secret: &JwtSecret, header: Option<&str>) -> (r: AppResult<AuthUser>)
        ensures
            header is None ==> (r matches Err(AppError::Unauthorized(m)) && m@
                == "missing Authorization header"@),
            header matches Some(h) && !bearer_prefix().is_prefix_of(h@) ==> (r matches Err(
                AppError::Unauthorized(m),
            ) && m@ == "expected 'Bearer <token>'"@),
            r matches Ok(a) ==> (header matches Some(h) && bearer_prefix().is_prefix_of(h@) && exists|
                now: int,
            | #[trigger] token_claims(bearer_token(h@), secret.secret(), now) == Some(a.claims@)),
    {
        match header {
            None => {
                return Err(AppError::Unauthorized("missing Authorization header".to_owned()));
            },
            Some(h) => {
                proof {
                    reveal_strlit("Bearer ");
                }
                if strip_prefix(h, "Bearer ").is_none() {
                    return Err(AppError::Unauthorized("expected 'Bearer <token>'".to_owned()));
                }
            },
        }
        let now = match now_seconds() {
            Some(t) => t,
            None => {
                return Err(clock_unavailable());
            },
        };
        let r = Self::from_header_at(secret, header, now);
        proof {
            if r is Ok {
                let h = header->0;
                assert(token_claims(bearer_token(h@), secret.secret(), now as int) == Some(
                    r->Ok_0.claims@,
                ));
            }
        }
        r
    }
}

impl AdminUser {
    /// Admits an authenticated caller with the Admin role; anyone else is
    /// `Forbidden`.
    pub fn from_auth(auth: AuthUser) -> (r: AppResult<AdminUser>)
        ensures
            auth.claims.role == Role::Admin ==> (r matches Ok(a) && a.claims == auth.claims),
            auth.claims.role != Role::Admin ==> (r matches Err(AppError::Forbidden(m)) && m@
                == "admin role required"@),
    {
        if !auth.claims.role.is_admin() {
            return Err(AppError::Forbidden("admin role required".to_owned()));
        }
        Ok(AdminUser { claims: auth.claims })
    }

    /// Authenticates the header value at time `now`, then requires the
    /// Admin role: a missing or invalid token is `Unauthorized`, a valid
    /// one without the role is `Forbidden`.
    pub fn from_header_at(secret: &JwtSecret, header: Option<&str>, now: i64) -> (r: AppResult<
        AdminUser,
    >)
        ensures
            match header_claims(
                match header {
                    Some(h) => Some(h@),
                    None => None,
                },
                secret.secret(),
                now as int,
            ) {
                Ok(v) => if v.role == Role::Admin {
                    r matches Ok(a) && a.claims@ == v
                } else {
                    r matches Err(AppError::Forbidden(m)) && m@ == "admin role required"@
                },
                Err(msg) => r matches Err(AppError::Unauthorized(m)) && m@ == msg,
            },
    {
        let auth = AuthUser::from_header_at(secret, header, now)?;
        Self::from_auth(auth)
    }
}

} // verus!
