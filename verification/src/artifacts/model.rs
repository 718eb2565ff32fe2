//! Domain model of an artifact and the validation of its input.

use vstd::prelude::*;
use crate::text::{push_str, trim, trimmed, is_blank, lemma_trimmed_empty_iff_blank};

verus! {

/// A single work in the collection. `artist_id` is required; dimensions
/// and metadata are optional.
#[derive(Debug, Clone)]
pub struct Artifact {
    pub id: u128,
    pub title: String,
    /// The attributed artist's id.
    pub artist_id: u128,
    pub art_type: Option<String>,
    pub art_style: Option<String>,
    pub medium: Option<String>,
    pub year_created: Option<i16>,
    /// Physical dimensions in centimetres.
    pub height_cm: Option<i16>,
    pub width_cm: Option<i16>,
    pub depth_cm: Option<i16>,
    pub description: Option<String>,
    pub created_at: i64,
    pub updated_at: i64,
}

/// Request body for creating and replacing an artifact.
#[derive(Debug, Clone)]
pub struct ArtifactInput {
    pub title: String,
    pub artist_id: u128,
    pub art_type: Option<String>,
    pub art_style: Option<String>,
    pub medium: Option<String>,
    pub year_created: Option<i16>,
    pub height_cm: Option<i16>,
    pub width_cm: Option<i16>,
    pub depth_cm: Option<i16>,
    pub description: Option<String>,
}

/// A dimension given as zero or less.
pub open spec fn not_positive(v: Option<i16>) -> bool {
    v is Some && v->0 <= 0
}

/// The message an artifact input is rejected with, or `None` when valid:
/// the title must not be blank, and each given dimension must be positive
/// (checked in the order height, width, depth).
pub open spec fn artifact_input_error(i: ArtifactInput) -> Option<Seq<char>> {
    if trimmed(i.title@).len() == 0 {
        Some("title cannot be empty"@)
    } else if not_positive(i.height_cm) {
        Some("height_cm"@ + " must be positive"@)
    } else if not_positive(i.width_cm) {
        Some("width_cm"@ + " must be positive"@)
    } else if not_positive(i.depth_cm) {
        Some("depth_cm"@ + " must be positive"@)
    } else {
        None
    }
}

/// Law: an artifact input is accepted exactly when its title is not blank
/// and every given dimension is positive.
pub proof fn law_artifact_input_accepted(i: ArtifactInput)
    ensures
        artifact_input_error(i) is None <==> (!is_blank(i.title@) && (i.height_cm matches Some(h) ==> h > 0) && (i.width_cm matches Some(w) ==> w > 0) && (i.depth_cm matches Some(d) ==> d > 0)),
{
    lemma_trimmed_empty_iff_blank(i.title@);
}

fn must_be_positive(label: &str) -> (r: String)
    ensures
        r@ == label@ + " must be positive"@,
{
    let mut m = label.to_owned();
    push_str(&mut m, " must be positive");
    m
}

impl ArtifactInput {
    /// Validate that the title isn't blank and the dimensions, when given,
    /// are positive.
    pub fn validate(&self) -> (r: Result<(), String>)
        ensures
            match artifact_input_error(*self) {
                Some(m) => r matches Err(e) && e@ == m,
                None => r is Ok,
            },
            r is Ok <==> (!is_blank(self.title@) && (self.height_cm matches Some(h) ==> h > 0) && (self.width_cm matches Some(w) ==> w > 0) && (self.depth_cm matches Some(d) ==> d > 0)),
    {
        proof {
            law_artifact_input_accepted(*self);
        }
        if trim(self.title.as_str()).is_empty() {
            return Err("title cannot be empty".to_owned());
        }
        if let Some(v) = self.height_cm {
            if v <= 0 {
                return Err(must_be_positive("height_cm"));
            }
        }
        if let Some(v) = self.width_cm {
            if v <= 0 {
                return Err(must_be_positive("width_cm"));
            }
        }
        if let Some(v) = self.depth_cm {
            if v <= 0 {
                return Err(must_be_positive("depth_cm"));
            }
        }
        Ok(())
    }
}

} // verus!
