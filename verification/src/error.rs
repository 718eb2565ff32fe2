//! The single error type every fallible operation returns, and the HTTP
//! status and message each variant is answered with.

use vstd::prelude::*;
use crate::text::push_str;

verus! {

/// The database failures the handlers tell apart: a query that expected a
/// row and found none, an error the database server reported (with its
/// SQLSTATE code, if any, and its message), and everything else (carried
/// as its text).
#[derive(Debug, Clone, PartialEq, Eq)]
pub enum DbError {
    RowNotFound,
    Database { code: Option<String>, message: String },
    Other(String),
}

/// Every error the API can surface, tagged with the status it maps to.
#[derive(Debug, Clone, PartialEq, Eq)]
pub enum AppError {
    /// Resource doesn't exist (or has been deleted): 404.
    NotFound,
    /// Input failed semantic validation: 400.
    Validation(String),
    /// State conflict (duplicate unique key, self-delete, ...): 409.
    Conflict(String),
    /// No, expired or tampered bearer token: 401.
    Unauthorized(String),
    /// Valid token, insufficient role: 403.
    Forbidden(String),
    /// A database failure: 500, except `RowNotFound` which is 404.
    Database(DbError),
    /// A programmer or infrastructure error: 500.
    Internal(String),
}

/// Result alias used throughout the crate.
pub type AppResult<T> = Result<T, AppError>;

/// The text of a database error.
pub open spec fn db_error_text(e: DbError) -> Seq<char> {
    match e {
        DbError::RowNotFound => "no rows returned by a query that expected to return at least one row"@,
        DbError::Database { message, .. } => "error returned from database: "@ + message@,
        DbError::Other(m) => m@,
    }
}

/// The text of an error (what its `Display` would print).
pub open spec fn error_text(e: AppError) -> Seq<char> {
    match e {
        AppError::NotFound => "not found"@,
        AppError::Validation(m) => "validation failed: "@ + m@,
        AppError::Conflict(m) => "conflict: "@ + m@,
        AppError::Unauthorized(m) => "unauthorized: "@ + m@,
        AppError::Forbidden(m) => "forbidden: "@ + m@,
        AppError::Database(d) => "database error: "@ + db_error_text(d),
        AppError::Internal(m) => "internal error: "@ + m@,
    }
}

/// The HTTP status an error is answered with.
pub open spec fn error_status(e: AppError) -> u16 {
    match e {
        AppError::NotFound => 404,
        AppError::Validation(_) => 400,
        AppError::Conflict(_) => 409,
        AppError::Unauthorized(_) => 401,
        AppError::Forbidden(_) => 403,
        AppError::Database(DbError::RowNotFound) => 404,
        AppError::Database(_) => 500,
        AppError::Internal(_) => 500,
    }
}

/// The message put in the response body: the error's own text for client
/// errors, a fixed text for server errors so internals do not leak.
pub open spec fn error_body(e: AppError) -> Seq<char> {
    match e {
        AppError::Database(DbError::RowNotFound) => "not found"@,
        AppError::Database(_) => "internal server error"@,
        AppError::Internal(_) => "internal server error"@,
        _ => error_text(e),
    }
}

/// The outcome of a delete that affected `rows_affected` rows: none means
/// there was nothing to delete.
pub fn require_deleted(rows_affected: u64) -> (r: AppResult<()>)
    ensures
        rows_affected == 0 ==> r matches Err(AppError::NotFound),
        rows_affected != 0 ==> r is Ok,
{
    if rows_affected == 0 {
        return Err(AppError::NotFound);
    }
    Ok(())
}

/// Law: a server-side failure is answered with a fixed message, so no
/// database or internal detail reaches the client.
pub proof fn law_server_errors_hide_details(e: AppError)
    ensures
        error_status(e) == 500 ==> error_body(e) == "internal server error"@,
{
}

/// Law: a client error is answered with its own text, prefixed by its
/// kind, and its status tells the kinds apart.
pub proof fn law_client_errors_explain(e: AppError)
    ensures
        e is Validation ==> error_status(e) == 400 && error_body(e) == "validation failed: "@ + e->Validation_0@,
        e is Conflict ==> error_status(e) == 409 && error_body(e) == "conflict: "@ + e->Conflict_0@,
        e is Unauthorized ==> error_status(e) == 401 && error_body(e) == "unauthorized: "@
            + e->Unauthorized_0@,
        e is Forbidden ==> error_status(e) == 403 && error_body(e) == "forbidden: "@ + e->Forbidden_0@,
        e is NotFound || e == AppError::Database(DbError::RowNotFound) ==> error_status(e) == 404
            && error_body(e) == "not found"@,
{
}

impl DbError {
    /// The text of this database error.
    pub fn text(&self) -> (r: String)
        ensures
            r@ == db_error_text(*self),
    {
        match self {
            DbError::RowNotFound => "no rows returned by a query that expected to return at least one row".to_owned(),
            DbError::Database { message, .. } => {
                let mut t = "error returned from database: ".to_owned();
                push_str(&mut t, message.as_str());
                t
            },
            DbError::Other(m) => m.clone(),
        }
    }
}

impl AppError {
    /// The text of this error (what `Display` prints in the original).
    pub fn message(&self) -> (r: String)
        ensures
            r@ == error_text(*self),
    {
        let (prefix, rest): (&str, String) = match self {
            AppError::NotFound => { return "not found".to_owned(); },
            AppError::Validation(m) => ("validation failed: ", m.clone()),
            AppError::Conflict(m) => ("conflict: ", m.clone()),
            AppError::Unauthorized(m) => ("unauthorized: ", m.clone()),
            AppError::Forbidden(m) => ("forbidden: ", m.clone()),
            AppError::Database(d) => ("database error: ", d.text()),
            AppError::Internal(m) => ("internal error: ", m.clone()),
        };
        let mut out = prefix.to_owned();
        push_str(&mut out, rest.as_str());
        out
    }

    /// The HTTP status code this error maps to.
    pub fn status(&self) -> (r: u16)
        ensures
            r == error_status(*self),
    {
        match self {
            AppError::NotFound => 404,
            AppError::Validation(_) => 400,
            AppError::Conflict(_) => 409,
            AppError::Unauthorized(_) => 401,
            AppError::Forbidden(_) => 403,
            AppError::Database(DbError::RowNotFound) => 404,
            AppError::Database(_) => 500,
            AppError::Internal(_) => 500,
        }
    }

    /// Whether this error is a server-side failure that should be logged.
    pub fn is_server_error(&self) -> (r: bool)
        ensures
            r == (error_status(*self) == 500),
    {
        match self {
            AppError::Database(DbError::RowNotFound) => false,
            AppError::Database(_) => true,
            AppError::Internal(_) => true,
            _ => false,
        }
    }

    /// Status and body message of the HTTP response for this error: the
    /// uniform `{"error": message}` answer every handler gives.
    pub fn response_parts(&self) -> (r: (u16, String))
        ensures
            r.0 == error_status(*self),
            r.1@ == error_body(*self),
    {
        let status = self.status();
        let body = match self {
            AppError::Database(DbError::RowNotFound) => "not found".to_owned(),
            AppError::Database(_) => "internal server error".to_owned(),
            AppError::Internal(_) => "internal server error".to_owned(),
            _ => self.message(),
        };
        (status, body)
    }
}

} // verus!
