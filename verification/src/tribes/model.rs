//! Domain model of a tribe and the validation of its input.

use vstd::prelude::*;
use crate::text::{is_blank, lemma_trimmed_empty_iff_blank, trim, trimmed};

verus! {

/// A tribe / language group. `territory` is the GeoJSON text of the
/// tribe's traditional Country (a MultiPolygon), or `None` if not set.
#[derive(Debug, Clone)]
pub struct Tribe {
    pub id: u128,
    /// Display name, unique ignoring case.
    pub name: String,
    pub region: Option<String>,
    pub language_group: Option<String>,
    pub description: Option<String>,
    /// GeoJSON geometry text, managed separately from the main update.
    pub territory: Option<String>,
    pub created_at: i64,
    pub updated_at: i64,
}

/// Request body for creating and replacing a tribe; territory has its own
/// operations.
#[derive(Debug, Clone)]
pub struct TribeInput {
    pub name: String,
    pub region: Option<String>,
    pub language_group: Option<String>,
    pub description: Option<String>,
}

/// The message a tribe input is rejected with, or `None` when valid.
pub open spec fn tribe_input_error(i: TribeInput) -> Option<Seq<char>> {
    if trimmed(i.name@).len() == 0 {
        Some("name cannot be empty"@)
    } else {
        None
    }
}

/// Law: a tribe input is refused exactly when its name is blank (empty or
/// only white space).
pub proof fn law_blank_name_refused(i: TribeInput)
    ensures
        tribe_input_error(i) is Some <==> is_blank(i.name@),
{
    lemma_trimmed_empty_iff_blank(i.name@);
}

impl TribeInput {
    /// The name must not be blank.
    pub fn validate(&self) -> (r: Result<(), String>)
        ensures
            match tribe_input_error(*self) {
                Some(m) => r matches Err(e) && e@ == m,
                None => r is Ok,
            },
            r is Ok <==> !is_blank(self.name@),
    {
        proof {
            law_blank_name_refused(*self);
        }
        if trim(self.name.as_str()).is_empty() {
            return Err("name cannot be empty".to_owned());
        }
        Ok(())
    }
}

} // verus!
