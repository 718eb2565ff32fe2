//! How the database's refusals of account writes are answered.

use vstd::prelude::*;
use crate::error::{AppError, DbError};
use crate::tribes::repo::{has_sqlstate, sqlstate_is};

verus! {

/// A unique-key violation (SQLSTATE `23505`): the only unique key of an
/// account is its email, so it is a `Conflict` on the email. Any other
/// failure stays a database error.
pub fn map_unique_violation(err: DbError) -> (r: AppError)
    ensures
        has_sqlstate(err, "23505"@) ==> (r matches AppError::Conflict(m) && m@
            == "email already in use"@),
        !has_sqlstate(err, "23505"@) ==> r == AppError::Database(err),
{
    if sqlstate_is(&err, "23505") {
        return AppError::Conflict("email already in use".to_owned());
    }
    AppError::Database(err)
}

} // verus!
