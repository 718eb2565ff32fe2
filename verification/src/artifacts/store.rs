//! In-memory artifact store: create assigns a fresh id and timestamps,
//! missing ids are `NotFound`, update keeps `created_at`, list is ordered by
//! title. The `artist_id` foreign key belongs to the database-backed store.

use vstd::prelude::*;
use super::model::{Artifact, ArtifactInput};
use crate::clock::{clock_unavailable, new_id, now_micros, random_unavailable, unavailable};
use crate::error::{AppError, AppResult};
use crate::table::{lists_map_sorted, Row, Table};
use crate::text::clone_opt;

verus! {

impl Row for Artifact {
    open spec fn key(&self) -> u128 {
        self.id
    }

    open spec fn sort_key(&self) -> Seq<char> {
        self.title@
    }

    fn id(&self) -> (r: u128) {
        self.id
    }

    fn sort_text(&self) -> (r: &str) {
        self.title.as_str()
    }

    fn duplicate(&self) -> (r: Self) {
        Artifact {
            id: self.id,
            title: self.title.clone(),
            artist_id: self.artist_id,
            art_type: clone_opt(&self.art_type),
            art_style: clone_opt(&self.art_style),
            medium: clone_opt(&self.medium),
            year_created: self.year_created,
            height_cm: self.height_cm,
            width_cm: self.width_cm,
            depth_cm: self.depth_cm,
            description: clone_opt(&self.description),
            created_at: self.created_at,
            updated_at: self.updated_at,
        }
    }
}

/// The artifact stored under `id` from `input`, with the given timestamps.
pub open spec fn artifact_row(
    id: u128,
    input: ArtifactInput,
    created_at: i64,
    updated_at: i64,
) -> Artifact {
    Artifact {
        id,
        title: input.title,
        artist_id: input.artist_id,
        art_type: input.art_type,
        art_style: input.art_style,
        medium: input.medium,
        year_created: input.year_created,
        height_cm: input.height_cm,
        width_cm: input.width_cm,
        depth_cm: input.depth_cm,
        description: input.description,
        created_at,
        updated_at,
    }
}

fn build_artifact(id: u128, input: ArtifactInput, created_at: i64, updated_at: i64) -> (r: Artifact)
    ensures
        r == artifact_row(id, input, created_at, updated_at),
{
    Artifact {
        id,
        title: input.title,
        artist_id: input.artist_id,
        art_type: input.art_type,
        art_style: input.art_style,
        medium: input.medium,
        year_created: input.year_created,
        height_cm: input.height_cm,
        width_cm: input.width_cm,
        depth_cm: input.depth_cm,
        description: input.description,
        created_at,
        updated_at,
    }
}

/// Law: a stored artifact keeps each input field in its own field, with
/// the id and times it was stored with.
pub proof fn law_stored_artifact_keeps_input(id: u128, input: ArtifactInput, created_at: i64, updated_at: i64)
    ensures
        ({
            let a = artifact_row(id, input, created_at, updated_at);
            &&& a.title == input.title && a.artist_id == input.artist_id && a.art_type == input.art_type && a.art_style == input.art_style && a.medium == input.medium && a.year_created == input.year_created && a.height_cm == input.height_cm && a.width_cm == input.width_cm && a.depth_cm == input.depth_cm && a.description == input.description
            &&& a.id == id && a.created_at == created_at && a.updated_at == updated_at
        }),
{
}

/// In-memory artifact store.
pub struct InMemoryArtifactStore {
    rows: Table<Artifact>,
}

impl InMemoryArtifactStore {
    /// The stored artifacts, by id.
    pub open spec fn view(&self) -> Map<u128, Artifact> {
        self.table()@
    }

    /// The underlying table.
    pub closed spec fn table(&self) -> Table<Artifact> {
        self.rows
    }

    /// The store is well formed.
    pub open spec fn wf(&self) -> bool {
        self.table().wf()
    }

    /// An empty store.
    pub fn new() -> (s: Self)
        ensures
            s.wf(),
            s@ == Map::<u128, Artifact>::empty(),
    {
        InMemoryArtifactStore { rows: Table::new() }
    }

    /// Every artifact, ordered by title.
    pub fn list(&self) -> (r: AppResult<Vec<Artifact>>)
        requires
            self.wf(),
        ensures
            r matches Ok(v) && lists_map_sorted(v@, self@),
    {
        Ok(self.rows.sorted())
    }

    /// One artifact by id; `NotFound` if absent.
    pub fn find(&self, id: u128) -> (r: AppResult<Artifact>)
        requires
            self.wf(),
        ensures
            self@.contains_key(id) ==> r == Ok::<Artifact, AppError>(self@[id]),
            !self@.contains_key(id) ==> r matches Err(AppError::NotFound),
    {
        match self.rows.get(id) {
            Some(a) => Ok(a.duplicate()),
            None => Err(AppError::NotFound),
        }
    }

    /// Stores a new artifact from `input` under `id`, created and updated at
    /// `now`. An artifact already stored under `id` is replaced.
    pub fn create_at(&mut self, input: ArtifactInput, id: u128, now: i64) -> (r: Artifact)
        requires
            old(self).wf(),
        ensures
            r.title == input.title && r.artist_id == input.artist_id && r.art_type == input.art_type && r.art_style == input.art_style && r.medium == input.medium && r.year_created == input.year_created && r.height_cm == input.height_cm && r.width_cm == input.width_cm && r.depth_cm == input.depth_cm && r.description == input.description,
            final(self).wf(),
            r == artifact_row(id, input, now, now),
            final(self)@ == old(self)@.insert(id, r),
    {
        let artifact = build_artifact(id, input, now, now);
        let out = artifact.duplicate();
        self.rows.upsert(artifact);
        out
    }

    /// Inserts a new artifact under a fresh random id, stamped with the
    /// current time.
    /// The clock and the random source are read only once every other check
    /// has passed; either being unavailable is an internal error and leaves
    /// the store unchanged.
    pub fn create(&mut self, input: ArtifactInput) -> (r: AppResult<Artifact>)
        requires
            old(self).wf(),
        ensures
            r matches Ok(a) ==> (a.title == input.title && a.artist_id == input.artist_id && a.art_type == input.art_type && a.art_style == input.art_style && a.medium == input.medium && a.year_created == input.year_created && a.height_cm == input.height_cm && a.width_cm == input.width_cm && a.depth_cm == input.depth_cm && a.description == input.description),
            final(self).wf(),
            unavailable(r) ==> final(self)@ == old(self)@,
            !unavailable(r) ==> (r matches Ok(a) && a == artifact_row(a.id, input, a.created_at, a.created_at)
                && final(self)@ == old(self)@.insert(a.id, a)),
    {
        let now = match now_micros() {
            Some(t) => t,
            None => {
                return Err(clock_unavailable());
            },
        };
        let id = match new_id() {
            Some(id) => id,
            None => {
                return Err(random_unavailable());
            },
        };
        Ok(self.create_at(input, id, now))
    }

    /// Replaces every field of the artifact `id` with `input` at time
    /// `now`, keeping `created_at`; `NotFound` if absent.
    pub fn update_at(&mut self, id: u128, input: ArtifactInput, now: i64) -> (r: AppResult<Artifact>)
        requires
            old(self).wf(),
        ensures
            r matches Ok(a) ==> (a.id == id && a.title == input.title && a.artist_id == input.artist_id && a.art_type == input.art_type && a.art_style == input.art_style && a.medium == input.medium && a.year_created == input.year_created && a.height_cm == input.height_cm && a.width_cm == input.width_cm && a.depth_cm == input.depth_cm && a.description == input.description && a.created_at == old(self)@[id].created_at),
            final(self).wf(),
            old(self)@.contains_key(id) ==> {
                let a = artifact_row(id, input, old(self)@[id].created_at, now);
                &&& r == Ok::<Artifact, AppError>(a)
                &&& final(self)@ == old(self)@.insert(id, a)
            },
            !old(self)@.contains_key(id) ==> (r matches Err(AppError::NotFound) && final(self)@
                == old(self)@),
    {
        let created_at = match self.rows.get(id) {
            Some(a) => a.created_at,
            None => { return Err(AppError::NotFound); },
        };
        let artifact = build_artifact(id, input, created_at, now);
        let out = artifact.duplicate();
        self.rows.upsert(artifact);
        Ok(out)
    }

    /// Replaces every field of the artifact `id`, stamped with the current
    /// time; `NotFound` if absent.
    /// The clock and the random source are read only once every other check
    /// has passed; either being unavailable is an internal error and leaves
    /// the store unchanged.
    pub fn update(&mut self, id: u128, input: ArtifactInput) -> (r: AppResult<Artifact>)
        requires
            old(self).wf(),
        ensures
            r matches Ok(a) ==> (a.id == id && a.title == input.title && a.artist_id == input.artist_id && a.art_type == input.art_type && a.art_style == input.art_style && a.medium == input.medium && a.year_created == input.year_created && a.height_cm == input.height_cm && a.width_cm == input.width_cm && a.depth_cm == input.depth_cm && a.description == input.description && a.created_at == old(self)@[id].created_at),
            final(self).wf(),
            unavailable(r) ==> final(self)@ == old(self)@,
            !unavailable(r) ==> (old(self)@.contains_key(id) ==> (r matches Ok(a) && a == artifact_row(
                id,
                input,
                old(self)@[id].created_at,
                a.updated_at,
            ) && final(self)@ == old(self)@.insert(id, a))),
            !old(self)@.contains_key(id) ==> (r matches Err(AppError::NotFound) && final(self)@
                == old(self)@),
    {
        if self.rows.get(id).is_none() {
            return Err(AppError::NotFound);
        }
        let now = match now_micros() {
            Some(t) => t,
            None => {
                return Err(clock_unavailable());
            },
        };
        self.update_at(id, input, now)
    }

    /// Deletes the artifact `id`; `NotFound` if absent.
    pub fn delete(&mut self, id: u128) -> (r: AppResult<()>)
        requires
            old(self).wf(),
        ensures
            final(self).wf(),
            final(self)@ == old(self)@.remove(id),
            old(self)@.contains_key(id) ==> r is Ok,
            !old(self)@.contains_key(id) ==> r matches Err(AppError::NotFound),
    {
        if self.rows.remove(id) {
            Ok(())
        } else {
            Err(AppError::NotFound)
        }
    }
}

} // verus!
