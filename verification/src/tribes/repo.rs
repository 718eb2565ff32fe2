//! How the database's refusals of tribe writes are answered.

use vstd::prelude::*;
use crate::error::{AppError, DbError};
use crate::text::{contains_str, contains_text, push_str, str_eq};

verus! {

/// Whether `e` is an error the database server reported with SQLSTATE
/// `code`.
pub open spec fn has_sqlstate(e: DbError, code: Seq<char>) -> bool {
    e matches DbError::Database { code: Some(c), .. } && c@ == code
}

/// Whether the database reported the error with SQLSTATE `code`.
pub fn sqlstate_is(e: &DbError, code: &str) -> (r: bool)
    ensures
        r == has_sqlstate(*e, code@),
{
    match e {
        DbError::Database { code: Some(c), .. } => str_eq(c.as_str(), code),
        _ => false,
    }
}

/// A unique-key violation (SQLSTATE `23505`) on the tribe name is a
/// `Conflict`; any other failure stays a database error.
pub fn map_unique_violation(err: DbError) -> (r: AppError)
    ensures
        has_sqlstate(err, "23505"@) ==> (r matches AppError::Conflict(m) && m@
            == "a tribe with this name already exists"@),
        !has_sqlstate(err, "23505"@) ==> r == AppError::Database(err),
{
    if sqlstate_is(&err, "23505") {
        return AppError::Conflict("a tribe with this name already exists".to_owned());
    }
    AppError::Database(err)
}

/// Whether the database message blames the GeoJSON it was given.
pub open spec fn blames_geojson(message: Seq<char>) -> bool {
    contains_text(message, "GeoJSON"@) || contains_text(message, "geojson"@)
}

/// Whether a failure of the territory update comes from the GeoJSON it was
/// handed: PostGIS reports a geometry it cannot read with SQLSTATE `XX000`,
/// and its message names GeoJSON.
pub open spec fn geojson_refused(err: DbError) -> bool {
    err matches DbError::Database { message, .. } && (has_sqlstate(err, "XX000"@) || blames_geojson(
        message@,
    ))
}

/// A failure of the territory update caused by the GeoJSON in the request
/// (see `geojson_refused`) is a `Validation` error quoting the database's
/// message, so invalid GeoJSON is a 400, never a 500. Any other failure
/// stays a database error.
pub fn map_geojson_parse_error(err: DbError) -> (r: AppError)
    ensures
        geojson_refused(err) ==> (r matches AppError::Validation(m) && m@ == "invalid GeoJSON: "@
            + err->message@),
        !geojson_refused(err) ==> r == AppError::Database(err),
{
    let refused = sqlstate_is(&err, "XX000");
    let quoted = match &err {
        DbError::Database { message, .. } => {
            if refused || contains_str(message.as_str(), "GeoJSON") || contains_str(
                message.as_str(),
                "geojson",
            ) {
                let mut m = "invalid GeoJSON: ".to_owned();
                push_str(&mut m, message.as_str());
                Some(m)
            } else {
                None
            }
        },
        _ => None,
    };
    match quoted {
        Some(m) => AppError::Validation(m),
        None => AppError::Database(err),
    }
}

} // verus!
