//! Claims carried in any JSON layout: the payload parsed by `serde_json`
//! into a JSON value, and the claims read out of it the way a derived
//! `serde` decoder of the claims record reads them (fields in any order,
//! unknown fields ignored), together with the audience rule of the token
//! validation.

use vstd::prelude::*;
use super::jwt::{role_of_name, ClaimsView, Claims, Role};
use crate::text::str_eq;

verus! {

/// `serde_json`'s dynamically typed JSON value.
#[verifier::external_type_specification]
#[verifier::external_body]
pub struct ExJsonValue(serde_json::Value);

/// A JSON value. Numbers that are integers in the range of `i64` or `u64`
/// are kept; any other number (a fraction, an exponent, or out of range) is
/// `Float`, its value not kept. An object keeps its members in the order
/// `serde_json`'s map gives them, each key once.
#[derive(Debug)]
pub enum Json {
    Null,
    Bool(bool),
    Int(i128),
    Float,
    Str(String),
    Array(Vec<Json>),
    Object(Vec<(String, Json)>),
}

/// The JSON value `serde_json::from_str::<Value>` reads from `text`, as a
/// [`Json`]; `None` when `text` is not one JSON value.
pub uninterp spec fn json_parsed(text: Seq<char>) -> Option<Json>;

/// `serde_json`'s JSON number.
#[verifier::external_type_specification]
#[verifier::external_body]
pub struct ExJsonNumber(serde_json::Number);

/// The [`Json`] form of a `serde_json::Number`: `Int` when `as_i64` or
/// `as_u64` reads it, `Float` otherwise. Nothing is stated of it: its
/// argument is opaque here.
#[verifier::external_body]
fn json_number(n: &serde_json::Number) -> (r: Json) {
    match (n.as_i64(), n.as_u64()) {
        (Some(i), _) => Json::Int(i as i128),
        (None, Some(u)) => Json::Int(u as i128),
        (None, None) => Json::Float,
    }
}

/// The [`Json`] form of a `serde_json::Value`, variant for variant. Nothing
/// is stated of it: its argument is opaque here.
#[verifier::external_body]
fn json_value(v: &serde_json::Value) -> (r: Json) {
    match v {
        serde_json::Value::Null => Json::Null,
        serde_json::Value::Bool(b) => Json::Bool(*b),
        serde_json::Value::Number(n) => json_number(n),
        serde_json::Value::String(s) => Json::Str(s.clone()),
        serde_json::Value::Array(a) => Json::Array(a.iter().map(json_value).collect()),
        serde_json::Value::Object(m) => Json::Object(m.iter().map(|(k, x)| (k.clone(), json_value(x))).collect()),
    }
}

/// `serde_json::from_str::<serde_json::Value>(text)`, converted variant for
/// variant; the result is named `json_parsed(text)`.
#[verifier::external_body]
fn parse_json(text: &str) -> (r: Option<Json>)
    ensures
        r == json_parsed(text@),
{
    match serde_json::from_str::<serde_json::Value>(text) {
        Ok(v) => Some(json_value(&v)),
        Err(_) => None,
    }
}

/// The bits of the UUID `Uuid::parse_str` reads from `s` (hyphenated,
/// simple, braced or URN form, hex digits in either case).
pub uninterp spec fn uuid_parsed(s: Seq<char>) -> Option<u128>;

/// `uuid::Uuid::parse_str(s)`, as the UUID's bits; the result is named
/// `uuid_parsed(s)`. It is how `Uuid`'s `serde` decoder reads a string.
#[verifier::external_body]
fn uuid_parse(s: &str) -> (r: Option<u128>)
    ensures
        r == uuid_parsed(s@),
{
    match uuid::Uuid::parse_str(s) {
        Ok(u) => Some(u.as_u128()),
        Err(_) => None,
    }
}

/// The value of the first member of `es` named `k`.
pub open spec fn member(es: Seq<(String, Json)>, k: Seq<char>) -> Option<Json>
    decreases es.len(),
{
    if es.len() == 0 {
        None
    } else if es[0].0@ == k {
        Some(es[0].1)
    } else {
        member(es.drop_first(), k)
    }
}

/// The member `k` of `es`, when it is a string.
pub open spec fn str_member(es: Seq<(String, Json)>, k: Seq<char>) -> Option<Seq<char>> {
    match member(es, k) {
        Some(Json::Str(s)) => Some(s@),
        _ => None,
    }
}

/// The member `k` of `es`, when it is an integer in the range of `i64`.
pub open spec fn int_member(es: Seq<(String, Json)>, k: Seq<char>) -> Option<i64> {
    match member(es, k) {
        Some(Json::Int(i)) => if i64::MIN <= i <= i64::MAX {
            Some(i as i64)
        } else {
            None
        },
        _ => None,
    }
}

/// The role a JSON value names, as a derived `serde` decoder of the role
/// enum reads it from JSON: the variant's name as a string, or an object
/// with that name as its one key and `null` as its value.
pub open spec fn role_of_json(j: Json) -> Option<Role> {
    match j {
        Json::Str(s) => role_of_name(s@),
        Json::Object(o) => if o@.len() == 1 && o@[0].1 is Null {
            role_of_name(o@[0].0@)
        } else {
            None
        },
        _ => None,
    }
}

/// Whether the token validation refuses the payload for its audience: with
/// no expected audience configured, a present `aud` that reads as a string
/// or as an array of strings is refused; any other `aud` does not parse as
/// an audience and is ignored.
pub open spec fn audience_refused(es: Seq<(String, Json)>) -> bool {
    match member(es, "aud"@) {
        Some(Json::Str(_)) => true,
        Some(Json::Array(v)) => forall|i: int| 0 <= i < v@.len() ==> (#[trigger] v@[i]) is Str,
        _ => false,
    }
}

/// The claims a JSON value stands for: an object whose `sub` is a UUID
/// string, `email` a string, `role` a role, `exp` and `iat` integers in the
/// range of `i64` (other members ignored), unless its audience is refused.
pub open spec fn claims_of_json(j: Json) -> Option<ClaimsView> {
    match j {
        Json::Object(o) => {
            let es = o@;
            let role = match member(es, "role"@) {
                Some(r) => role_of_json(r),
                None => None,
            };
            if str_member(es, "sub"@) is Some && str_member(es, "email"@) is Some && role is Some
                && int_member(es, "exp"@) is Some && int_member(es, "iat"@) is Some && uuid_parsed(
                str_member(es, "sub"@)->0,
            ) is Some && !audience_refused(es) {
                Some(
                    ClaimsView {
                        sub: uuid_parsed(str_member(es, "sub"@)->0)->0,
                        email: str_member(es, "email"@)->0,
                        role: role->0,
                        exp: int_member(es, "exp"@)->0,
                        iat: int_member(es, "iat"@)->0,
                    },
                )
            } else {
                None
            }
        },
        _ => None,
    }
}

/// The claims the payload text `t` stands for, parsed by `serde_json`.
pub open spec fn claims_of_text(t: Seq<char>) -> Option<ClaimsView> {
    match json_parsed(t) {
        Some(j) => claims_of_json(j),
        None => None,
    }
}

/// The first member of `es` named `k`.
fn find_member<'a>(es: &'a Vec<(String, Json)>, k: &str) -> (r: Option<&'a Json>)
    ensures
        match member(es@, k@) {
            Some(v) => r matches Some(x) && *x == v,
            None => r is None,
        },
{
    let mut i: usize = 0;
    assert(es@.skip(0) =~= es@);
    while i < es.len()
        invariant
            i <= es.len(),
            member(es@, k@) == member(es@.skip(i as int), k@),
        decreases es.len() - i,
    {
        assert(es@.skip(i as int).drop_first() =~= es@.skip(i + 1));
        if str_eq(es[i].0.as_str(), k) {
            return Some(&es[i].1);
        }
        i += 1;
    }
    None
}

fn string_member(es: &Vec<(String, Json)>, k: &str) -> (r: Option<String>)
    ensures
        match str_member(es@, k@) {
            Some(s) => r matches Some(x) && x@ == s,
            None => r is None,
        },
{
    match find_member(es, k) {
        Some(Json::Str(s)) => Some(s.clone()),
        _ => None,
    }
}

fn integer_member(es: &Vec<(String, Json)>, k: &str) -> (r: Option<i64>)
    ensures
        r == int_member(es@, k@),
{
    match find_member(es, k) {
        Some(Json::Int(i)) => if i64::MIN as i128 <= *i && *i <= i64::MAX as i128 {
            Some(*i as i64)
        } else {
            None
        },
        _ => None,
    }
}

fn role_member(j: &Json) -> (r: Option<Role>)
    ensures
        r == role_of_json(*j),
{
    let name: &String = match j {
        Json::Str(s) => s,
        Json::Object(o) => {
            if o.len() != 1 {
                return None;
            }
            match &o[0].1 {
                Json::Null => &o[0].0,
                _ => {
                    return None;
                },
            }
        },
        _ => {
            return None;
        },
    };
    proof {
        reveal_strlit("User");
        reveal_strlit("Admin");
    }
    if str_eq(name.as_str(), "User") {
        Some(Role::User)
    } else if str_eq(name.as_str(), "Admin") {
        Some(Role::Admin)
    } else {
        None
    }
}

fn audience_is_refused(es: &Vec<(String, Json)>) -> (r: bool)
    ensures
        r == audience_refused(es@),
{
    match find_member(es, "aud") {
        Some(Json::Str(_)) => true,
        Some(Json::Array(v)) => {
            let mut i: usize = 0;
            while i < v.len()
                invariant
                    i <= v.len(),
                    forall|j: int| 0 <= j < i ==> (#[trigger] v@[j]) is Str,
                    member(es@, "aud"@) matches Some(Json::Array(w)) && w@ == v@,
                decreases v.len() - i,
            {
                match &v[i] {
                    Json::Str(_) => {},
                    _ => {
                        assert(!(v@[i as int] is Str));
                        return false;
                    },
                }
                i += 1;
            }
            true
        },
        _ => false,
    }
}

/// Reads the claims out of a JSON value (see `claims_of_json`).
pub fn claims_from_json(j: &Json) -> (r: Option<Claims>)
    ensures
        match claims_of_json(*j) {
            Some(v) => r matches Some(c) && c@ == v,
            None => r is None,
        },
{
    let es = match j {
        Json::Object(o) => o,
        _ => {
            return None;
        },
    };
    let sub_text = match string_member(es, "sub") {
        Some(s) => s,
        None => {
            return None;
        },
    };
    let email = match string_member(es, "email") {
        Some(s) => s,
        None => {
            return None;
        },
    };
    let role = match find_member(es, "role") {
        Some(r) => match role_member(r) {
            Some(role) => role,
            None => {
                return None;
            },
        },
        None => {
            return None;
        },
    };
    let exp = match integer_member(es, "exp") {
        Some(x) => x,
        None => {
            return None;
        },
    };
    let iat = match integer_member(es, "iat") {
        Some(x) => x,
        None => {
            return None;
        },
    };
    let sub = match uuid_parse(sub_text.as_str()) {
        Some(v) => v,
        None => {
            return None;
        },
    };
    if audience_is_refused(es) {
        return None;
    }
    Some(Claims { sub, email, role, exp, iat })
}

/// Parses `text` as JSON and reads the claims out of it (see
/// `claims_of_text`).
pub fn claims_from_text(text: &str) -> (r: Option<Claims>)
    ensures
        match claims_of_text(text@) {
            Some(v) => r matches Some(c) && c@ == v,
            None => r is None,
        },
{
    match parse_json(text) {
        Some(j) => claims_from_json(&j),
        None => None,
    }
}

} // verus!
