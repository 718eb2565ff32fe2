//! How the database's refusals of artifact writes are answered.

use vstd::prelude::*;
use crate::error::{AppError, DbError};
use crate::tribes::repo::{has_sqlstate, sqlstate_is};

verus! {

/// A foreign-key violation (SQLSTATE `23503`) means the artifact names an
/// artist that does not exist: a `Validation` error on `artist_id`. Any
/// other failure stays a database error.
pub fn map_artist_fk_violation(err: DbError) -> (r: AppError)
    ensures
        has_sqlstate(err, "23503"@) ==> (r matches AppError::Validation(m) && m@
            == "artist_id: artist not found"@),
        !has_sqlstate(err, "23503"@) ==> r == AppError::Database(err),
{
    if sqlstate_is(&err, "23503") {
        return AppError::Validation("artist_id: artist not found".to_owned());
    }
    AppError::Database(err)
}

} // verus!
