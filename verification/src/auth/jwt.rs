//! Roles, token claims, and signing / verifying bearer tokens.

use vstd::prelude::*;
use super::json::{claims_from_text, claims_of_text};
use super::payload::{claims_json, claims_to_json, law_claims_text_determines_claims, parse_claims};
use crate::clock::{clock_unavailable, now_seconds, unavailable};
use crate::error::{AppError, AppResult};
use crate::text::{push_str, str_eq, utf8_len};
use vstd::slice::slice_to_vec;
use vstd::utf8::encode_utf8;

verus! {

/// Roles the app understands, stored as plain strings and embedded in the
/// token claim of the same name.
#[derive(Debug, Clone, Copy, PartialEq, Eq)]
pub enum Role {
    User,
    Admin,
}

/// The string form of a role, used in the database and on the wire.
pub open spec fn role_name(r: Role) -> Seq<char> {
    match r {
        Role::User => "User"@,
        Role::Admin => "Admin"@,
    }
}

/// The role a stored string names, if any.
pub open spec fn role_of_name(s: Seq<char>) -> Option<Role> {
    if s == "User"@ {
        Some(Role::User)
    } else if s == "Admin"@ {
        Some(Role::Admin)
    } else {
        None
    }
}

impl Role {
    /// String form used both in the database column and on the wire.
    pub fn as_str(&self) -> (r: &'static str)
        ensures
            r@ == role_name(*self),
    {
        match self {
            Role::User => "User",
            Role::Admin => "Admin",
        }
    }

    /// Whether this is the administrator role.
    pub fn is_admin(&self) -> (r: bool)
        ensures
            r == (*self == Role::Admin),
    {
        match self {
            Role::Admin => true,
            Role::User => false,
        }
    }

    /// Parse the stored string form back into a role. An unrecognised value
    /// is a data-integrity bug and surfaces as an internal error.
    pub fn from_db_str(s: &str) -> (r: AppResult<Role>)
        ensures
            match role_of_name(s@) {
                Some(role) => r == Ok::<Role, AppError>(role),
                None => r matches Err(AppError::Internal(m)) && m@ == "unexpected role in DB: "@ + s@,
            },
    {
        if str_eq(s, "User") {
            Ok(Role::User)
        } else if str_eq(s, "Admin") {
            Ok(Role::Admin)
        } else {
            let mut m = "unexpected role in DB: ".to_owned();
            push_str(&mut m, s);
            Err(AppError::Internal(m))
        }
    }
}

/// Law: a role survives the round trip through its stored string form.
pub proof fn law_role_string_roundtrip(r: Role)
    ensures
        role_of_name(role_name(r)) == Some(r),
{
    reveal_strlit("User");
    reveal_strlit("Admin");
    assert("User"@ != "Admin"@) by {
        assert("User"@.len() != "Admin"@.len());
    }
}

/// Token lifetime.
const TOKEN_TTL_HOURS: i64 = 24;

/// Token lifetime in seconds.
pub open spec fn token_ttl_seconds() -> int {
    86400
}

/// Token payload: `sub` is the user id, `exp` and `iat` are Unix timestamps
/// in seconds.
#[derive(Debug, Clone, PartialEq, Eq)]
pub struct Claims {
    pub sub: u128,
    pub email: String,
    pub role: Role,
    pub exp: i64,
    pub iat: i64,
}

/// The value of a set of claims, the email taken as its characters.
pub struct ClaimsView {
    pub sub: u128,
    pub email: Seq<char>,
    pub role: Role,
    pub exp: i64,
    pub iat: i64,
}

impl View for Claims {
    type V = ClaimsView;

    open spec fn view(&self) -> ClaimsView {
        ClaimsView { sub: self.sub, email: self.email@, role: self.role, exp: self.exp, iat: self.iat }
    }
}

impl Claims {
    /// Claims for `user_id` issued at `now` (seconds since the epoch),
    /// expiring 24 hours later.
    pub fn issued_at(user_id: u128, email: String, role: Role, now: i64) -> (r: Self)
        requires
            -10_000_000_000_000 <= now <= 10_000_000_000_000,
        ensures
            r.sub == user_id,
            r.email == email,
            r.role == role,
            r.iat == now,
            r.exp == now + token_ttl_seconds(),
    {
        Self { sub: user_id, email, role, iat: now, exp: now + TOKEN_TTL_HOURS * 3600 }
    }

    /// Fresh claims for `user_id`: issued now, expiring 24 hours later;
    /// `None` when the clock cannot be read.
    pub fn new(user_id: u128, email: String, role: Role) -> (r: Option<Self>)
        ensures
            r matches Some(c) ==> c.sub == user_id && c.email == email && c.role == role && c.iat
                >= 0 && c.exp == c.iat + token_ttl_seconds(),
    {
        match now_seconds() {
            Some(now) => Some(Self::issued_at(user_id, email, role, now)),
            None => None,
        }
    }
}

/// `jsonwebtoken`'s error type, carried through from the signing call.
#[verifier::external_type_specification]
#[verifier::external_body]
pub struct ExJwtError(jsonwebtoken::errors::Error);

/// The compact token (`header.payload.signature`, base64url) that
/// `jsonwebtoken::encode` builds with the default HS256 header over the JSON
/// text `payload`, signed with `secret`.
pub uninterp spec fn hs256_token(payload: Seq<char>, secret: Seq<u8>) -> Seq<char>;

/// The payload JSON text that `jsonwebtoken::decode`, validating the
/// signature only, recovers from `token`: once the token splits into its
/// three parts, its header parses with algorithm HS256, its signature
/// checks out under `secret` and its payload is JSON; `None` otherwise.
pub uninterp spec fn hs256_payload(token: Seq<char>, secret: Seq<u8>) -> Option<Seq<char>>;

/// The JSON texts that stand for a set of claims.
pub open spec fn is_claims_text(p: Seq<char>) -> bool {
    exists|c: Claims| #[trigger] claims_json(c) == p
}

/// `jsonwebtoken::encode(&Header::default(), raw, &EncodingKey::from_secret(secret))`
/// where `raw` is the JSON text `payload` handed over verbatim as a
/// `serde_json` raw value. What is stated: the call succeeds (a claims text
/// is valid JSON, so the raw value is accepted; an HMAC key matches the
/// HS256 header; HMAC signing cannot fail), the token is named
/// `hs256_token(payload, secret)`, and `jsonwebtoken::decode` under the same
/// secret gives the payload back (the HMAC over the same bytes with the same
/// key matches, and the payload part decodes to the bytes that were encoded).
#[verifier::external_body]
fn hs256_sign(payload: &str, secret: &[u8]) -> (r: Result<String, jsonwebtoken::errors::Error>)
    requires
        is_claims_text(payload@),
    ensures
        r is Ok,
        r matches Ok(t) ==> t@ == hs256_token(payload@, secret@) && hs256_payload(t@, secret@)
            == Some(payload@),
{
    let raw = serde_json::value::RawValue::from_string(payload.to_owned())?;
    let key = jsonwebtoken::EncodingKey::from_secret(secret);
    jsonwebtoken::encode(&jsonwebtoken::Header::default(), &raw, &key)
}

/// `jsonwebtoken::decode::<Box<RawValue>>` with an HS256 validation that
/// checks the signature only (no claim is required, `exp` and `aud` are
/// left to the caller), keyed by `secret`: the payload's JSON text, or
/// `None` on any failure. The result is named `hs256_payload(token, secret)`.
#[verifier::external_body]
fn hs256_verify(token: &str, secret: &[u8]) -> (r: Option<String>)
    ensures
        match r {
            Some(p) => hs256_payload(token@, secret@) == Some(p@),
            None => hs256_payload(token@, secret@) is None,
        },
{
    let mut validation = jsonwebtoken::Validation::new(jsonwebtoken::Algorithm::HS256);
    validation.validate_exp = false;
    validation.validate_aud = false;
    validation.required_spec_claims.clear();
    let key = jsonwebtoken::DecodingKey::from_secret(secret);
    let data = jsonwebtoken::decode::<Box<serde_json::value::RawValue>>(token, &key, &validation);
    data.ok().map(|d| d.claims.get().to_owned())
}

/// The `Display` text of a `jsonwebtoken` error. Nothing is stated of it.
#[verifier::external_body]
fn jwt_error_text(e: &jsonwebtoken::errors::Error) -> (r: String) {
    e.to_string()
}

/// Seconds a token stays acceptable after its `exp`, as the default
/// validation of `jsonwebtoken` allows.
pub open spec fn exp_leeway() -> int {
    60
}

/// Whether claims expiring at `exp` are still accepted at time `now`: the
/// expiry is a non-negative timestamp no more than the leeway in the past.
pub open spec fn token_live(exp: i64, now: int) -> bool {
    exp >= 0 && exp >= now - exp_leeway()
}

/// Law: a token is accepted until sixty seconds past its expiry, never
/// with a negative expiry, and refused from then on.
pub proof fn law_expiry_window(exp: i64, now: int)
    ensures
        token_live(exp, now) <==> (0 <= exp && now <= exp + 60),
{
}

/// The claims a payload text stands for, as a derived `serde` decoder of
/// the claims record reads them: the library's own claims text is read by
/// its exact parser, any other text through `serde_json` (fields in any
/// order, white space, escapes, other UUID spellings, extra claims), with
/// the audience rule of the token validation.
pub open spec fn payload_text_claims(t: Seq<char>) -> Option<ClaimsView> {
    if is_claims_text(t) {
        Some((choose|c: Claims| #[trigger] claims_json(c) == t)@)
    } else {
        claims_of_text(t)
    }
}

/// The claims a verified payload stands for, when they are live at `now`.
pub open spec fn payload_claims(p: Option<Seq<char>>, now: int) -> Option<ClaimsView> {
    match p {
        Some(t) => match payload_text_claims(t) {
            Some(v) => if token_live(v.exp, now) {
                Some(v)
            } else {
                None
            },
            None => None,
        },
        None => None,
    }
}

/// The claims `token` carries under `secret` at time `now`, if it is
/// accepted: signed with that secret, carrying a claims payload, not
/// expired.
pub open spec fn token_claims(token: Seq<char>, secret: Seq<u8>, now: int) -> Option<ClaimsView> {
    payload_claims(hs256_payload(token, secret), now)
}

/// The message every refused token is answered with.
pub open spec fn invalid_token_message() -> Seq<char> {
    "invalid or expired token"@
}

/// Reads the claims out of a verified payload and checks that they are
/// still live at `now`; anything else is `Unauthorized`.
pub fn claims_from_payload(payload: Option<String>, now: i64) -> (r: AppResult<Claims>)
    ensures
        match payload_claims(
            match payload {
                Some(p) => Some(p@),
                None => None,
            },
            now as int,
        ) {
            Some(v) => r matches Ok(c) && c@ == v,
            None => r matches Err(AppError::Unauthorized(m)) && m@ == invalid_token_message(),
        },
        r matches Ok(c) ==> 0 <= c.exp && now <= c.exp + 60,
{
    let refused = AppError::Unauthorized("invalid or expired token".to_owned());
    let text = match payload {
        Some(p) => p,
        None => {
            return Err(refused);
        },
    };
    let ghost t = text@;
    let claims = match parse_claims(text.as_str()) {
        Some(c) => {
            proof {
                let c0 = choose|c: Claims| #[trigger] claims_json(c) == t;
                law_claims_text_determines_claims(c0, c);
            }
            c
        },
        None => {
            proof {
                if is_claims_text(t) {
                    let c = choose|c: Claims| #[trigger] claims_json(c) == t;
                    assert(claims_json(c) == t);
                }
            }
            match claims_from_text(text.as_str()) {
                Some(c) => c,
                None => {
                    return Err(refused);
                },
            }
        },
    };
    if claims.exp >= 0 && (now < 60 || claims.exp >= now - 60) {
        Ok(claims)
    } else {
        Err(refused)
    }
}

/// The signing secret of the bearer tokens.
#[derive(Clone)]
pub struct JwtSecret {
    key: Vec<u8>,
}

impl JwtSecret {
    /// The secret's bytes.
    pub closed spec fn secret(&self) -> Seq<u8> {
        self.key@
    }

    /// Keys from the given secret bytes.
    pub fn from_bytes(bytes: &[u8]) -> (s: Self)
        ensures
            s.secret() == bytes@,
    {
        JwtSecret { key: slice_to_vec(bytes) }
    }

    /// Keys from the configured secret text: refused when it is missing or
    /// shorter than 32 bytes, the key length HS256 asks for.
    pub fn from_secret_text(value: Option<String>) -> (r: Result<Self, String>)
        ensures
            match value {
                None => r matches Err(m) && m@ == "JWT_SECRET must be set (see .env.example)"@,
                Some(v) => if utf8_len(v@) < 32 {
                    r matches Err(m) && m@ == "JWT_SECRET must be at least 32 bytes for HS256"@
                } else {
                    r matches Ok(s) && s.secret() == encode_utf8(v@)
                },
            },
    {
        let secret = match value {
            Some(v) => v,
            None => {
                return Err("JWT_SECRET must be set (see .env.example)".to_owned());
            },
        };
        if secret.as_str().as_bytes().len() < 32 {
            return Err("JWT_SECRET must be at least 32 bytes for HS256".to_owned());
        }
        Ok(Self::from_bytes(secret.as_str().as_bytes()))
    }

    /// Signs a token over `claims`: always succeeds with the HS256 token
    /// over the claims' JSON text, which decodes under this secret back to
    /// that text.
    pub fn encode(&self, claims: &Claims) -> (r: AppResult<String>)
        ensures
            r matches Ok(t) && t@ == hs256_token(claims_json(*claims), self.secret()) && hs256_payload(
                t@,
                self.secret(),
            ) == Some(claims_json(*claims)),
    {
        let payload = claims_to_json(claims);
        match hs256_sign(payload.as_str(), self.key.as_slice()) {
            Ok(t) => Ok(t),
            Err(e) => {
                let mut m = "jwt encode failed: ".to_owned();
                push_str(&mut m, jwt_error_text(&e).as_str());
                Err(AppError::Internal(m))
            },
        }
    }

    /// Verifies `token` at time `now` (seconds): the claims it carries when
    /// it is signed with this secret, carries claims and has not expired;
    /// `Unauthorized` otherwise, whatever the cause.
    pub fn decode_at(&self, token: &str, now: i64) -> (r: AppResult<Claims>)
        ensures
            match token_claims(token@, self.secret(), now as int) {
                Some(v) => r matches Ok(c) && c@ == v,
                None => r matches Err(AppError::Unauthorized(m)) && m@ == invalid_token_message(),
            },
    {
        let payload = hs256_verify(token, self.key.as_slice());
        claims_from_payload(payload, now)
    }

    /// Verifies `token` against the current time; an unreadable clock is an
    /// internal error.
    pub fn decode(&self, token: &str) -> (r: AppResult<Claims>)
        ensures
            r matches Ok(c) ==> exists|now: int| #[trigger] token_claims(token@, self.secret(), now)
                == Some(c@),
            r is Err ==> (r matches Err(AppError::Unauthorized(m)) && m@ == invalid_token_message())
                || unavailable(r),
            hs256_payload(token@, self.secret()) is None ==> r is Err,
    {
        let now = match now_seconds() {
            Some(t) => t,
            None => {
                return Err(clock_unavailable());
            },
        };
        self.decode_at(token, now)
    }
}

/// Law: a token signed over `c` under a secret is accepted under that
/// secret exactly while `c` is live, and then gives back `c`.
pub proof fn law_decode_after_encode(c: Claims, secret: Seq<u8>, token: Seq<char>, now: int)
    requires
        hs256_payload(token, secret) == Some(claims_json(c)),
    ensures
        token_live(c.exp, now) ==> token_claims(token, secret, now) == Some(c@),
        !token_live(c.exp, now) ==> token_claims(token, secret, now) is None,
{
    let t = claims_json(c);
    assert(is_claims_text(t));
    let d = choose|d: Claims| #[trigger] claims_json(d) == t;
    law_claims_text_determines_claims(c, d);
}

} // verus!
