//! Domain model of an artist and the validation of its input.

use vstd::prelude::*;
use crate::text::{trim, trimmed, is_blank, lemma_trimmed_empty_iff_blank};

verus! {

/// An artist as stored in the archive. `tribe_id` is optional because the
/// affiliation may be unknown or unrecorded.
#[derive(Debug, Clone)]
pub struct Artist {
    /// Stable primary key (the 128 bits of a UUID).
    pub id: u128,
    /// The artist's published name.
    pub display_name: String,
    pub birth_year: Option<i16>,
    pub death_year: Option<i16>,
    pub region: Option<String>,
    pub biography: Option<String>,
    /// The affiliated tribe's id, if any.
    pub tribe_id: Option<u128>,
    /// Creation time, microseconds since the Unix epoch.
    pub created_at: i64,
    /// Time of the last write, microseconds since the Unix epoch.
    pub updated_at: i64,
}

/// Request body for creating an artist and for the full-replacement update:
/// omitted optional fields become empty (replace, not patch).
#[derive(Debug, Clone)]
pub struct ArtistInput {
    pub display_name: String,
    pub birth_year: Option<i16>,
    pub death_year: Option<i16>,
    pub region: Option<String>,
    pub biography: Option<String>,
    pub tribe_id: Option<u128>,
}

/// The message an artist input is rejected with, or `None` when it is valid:
/// the name must not be blank, and a death year may not precede a birth year.
pub open spec fn artist_input_error(i: ArtistInput) -> Option<Seq<char>> {
    if trimmed(i.display_name@).len() == 0 {
        Some("display_name cannot be empty"@)
    } else if i.birth_year is Some && i.death_year is Some && i.death_year->0 < i.birth_year->0 {
        Some("death_year must be greater than or equal to birth_year"@)
    } else {
        None
    }
}

/// Law: an artist input is accepted exactly when its name is not blank
/// and, where both years are given, death does not precede birth.
pub proof fn law_artist_input_accepted(i: ArtistInput)
    ensures
        artist_input_error(i) is None <==> (!is_blank(i.display_name@) && !(i.birth_year is Some
            && i.death_year is Some && i.death_year->0 < i.birth_year->0)),
{
    lemma_trimmed_empty_iff_blank(i.display_name@);
}

impl ArtistInput {
    /// Application-side validation mirroring the database checks.
    pub fn validate(&self) -> (r: Result<(), String>)
        ensures
            match artist_input_error(*self) {
                Some(m) => r matches Err(e) && e@ == m,
                None => r is Ok,
            },
            r is Ok <==> (!is_blank(self.display_name@) && !(self.birth_year is Some
                && self.death_year is Some && self.death_year->0 < self.birth_year->0)),
    {
        proof {
            law_artist_input_accepted(*self);
        }
        if trim(self.display_name.as_str()).is_empty() {
            return Err("display_name cannot be empty".to_owned());
        }
        if let (Some(b), Some(d)) = (self.birth_year, self.death_year) {
            if d < b {
                return Err("death_year must be greater than or equal to birth_year".to_owned());
            }
        }
        Ok(())
    }
}

} // verus!
