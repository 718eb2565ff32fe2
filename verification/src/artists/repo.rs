//! How the database's refusals of artist writes are answered.

use vstd::prelude::*;
use crate::error::{AppError, DbError};
use crate::tribes::repo::{has_sqlstate, sqlstate_is};

verus! {

/// A foreign-key violation (SQLSTATE `23503`) means the artist names a
/// tribe that does not exist: a `Validation` error on `tribe_id`. Any other
/// failure stays a database error.
pub fn map_tribe_fk_violation(err: DbError) -> (r: AppError)
    ensures
        has_sqlstate(err, "23503"@) ==> (r matches AppError::Validation(m) && m@
            == "tribe_id: tribe not found"@),
        !has_sqlstate(err, "23503"@) ==> r == AppError::Database(err),
{
    if sqlstate_is(&err, "23503") {
        return AppError::Validation("tribe_id: tribe not found".to_owned());
    }
    AppError::Database(err)
}

/// Deleting an artist that works still reference violates their foreign
/// key (SQLSTATE `23503`, the reference is `ON DELETE RESTRICT`): a
/// `Conflict`. Any other failure stays a database error.
pub fn map_referenced_artist_violation(err: DbError) -> (r: AppError)
    ensures
        has_sqlstate(err, "23503"@) ==> (r matches AppError::Conflict(m) && m@
            == "cannot delete artist while artifacts reference them"@),
        !has_sqlstate(err, "23503"@) ==> r == AppError::Database(err),
{
    if sqlstate_is(&err, "23503") {
        return AppError::Conflict("cannot delete artist while artifacts reference them".to_owned());
    }
    AppError::Database(err)
}

} // verus!
