//! In-memory artist store: create assigns a fresh id and timestamps, missing
//! ids are `NotFound`, update keeps `created_at`, list is ordered by name.
//! Database-enforced cross-aggregate rules (the tribe foreign key, the
//! restriction from artifacts) belong to the database-backed store.

use vstd::prelude::*;
use super::model::{Artist, ArtistInput};
use crate::clock::{clock_unavailable, new_id, now_micros, random_unavailable, unavailable};
use crate::error::{AppError, AppResult};
use crate::table::{lists_map_sorted, Row, Table};
use crate::text::clone_opt;

verus! {

impl Row for Artist {
    open spec fn key(&self) -> u128 {
        self.id
    }

    open spec fn sort_key(&self) -> Seq<char> {
        self.display_name@
    }

    fn id(&self) -> (r: u128) {
        self.id
    }

    fn sort_text(&self) -> (r: &str) {
        self.display_name.as_str()
    }

    fn duplicate(&self) -> (r: Self) {
        Artist {
            id: self.id,
            display_name: self.display_name.clone(),
            birth_year: self.birth_year,
            death_year: self.death_year,
            region: clone_opt(&self.region),
            biography: clone_opt(&self.biography),
            tribe_id: self.tribe_id,
            created_at: self.created_at,
            updated_at: self.updated_at,
        }
    }
}

/// The artist stored under `id` from `input`, with the given timestamps.
pub open spec fn artist_row(id: u128, input: ArtistInput, created_at: i64, updated_at: i64) -> Artist {
    Artist {
        id,
        display_name: input.display_name,
        birth_year: input.birth_year,
        death_year: input.death_year,
        region: input.region,
        biography: input.biography,
        tribe_id: input.tribe_id,
        created_at,
        updated_at,
    }
}

/// Law: a stored artist keeps each input field in its own field, with
/// the id and times it was stored with.
pub proof fn law_stored_artist_keeps_input(id: u128, input: ArtistInput, created_at: i64, updated_at: i64)
    ensures
        ({
            let a = artist_row(id, input, created_at, updated_at);
            &&& a.display_name == input.display_name && a.birth_year == input.birth_year && a.death_year == input.death_year && a.region == input.region && a.biography == input.biography && a.tribe_id == input.tribe_id
            &&& a.id == id && a.created_at == created_at && a.updated_at == updated_at
        }),
{
}

/// In-memory artist store.
pub struct InMemoryArtistStore {
    rows: Table<Artist>,
}

impl InMemoryArtistStore {
    /// The stored artists, by id.
    pub open spec fn view(&self) -> Map<u128, Artist> {
        self.table()@
    }

    /// The underlying table.
    pub closed spec fn table(&self) -> Table<Artist> {
        self.rows
    }

    /// The store is well formed.
    pub open spec fn wf(&self) -> bool {
        self.table().wf()
    }

    /// An empty store.
    pub fn new() -> (s: Self)
        ensures
            s.wf(),
            s@ == Map::<u128, Artist>::empty(),
    {
        InMemoryArtistStore { rows: Table::new() }
    }

    /// Every artist, ordered by display name.
    pub fn list(&self) -> (r: AppResult<Vec<Artist>>)
        requires
            self.wf(),
        ensures
            r matches Ok(v) && lists_map_sorted(v@, self@),
    {
        Ok(self.rows.sorted())
    }

    /// One artist by id; `NotFound` if absent.
    pub fn find(&self, id: u128) -> (r: AppResult<Artist>)
        requires
            self.wf(),
        ensures
            self@.contains_key(id) ==> r == Ok::<Artist, AppError>(self@[id]),
            !self@.contains_key(id) ==> r matches Err(AppError::NotFound),
    {
        match self.rows.get(id) {
            Some(a) => Ok(a.duplicate()),
            None => Err(AppError::NotFound),
        }
    }

    /// Stores a new artist from `input` under `id`, created and updated at
    /// `now`. An artist already stored under `id` is replaced.
    pub fn create_at(&mut self, input: ArtistInput, id: u128, now: i64) -> (r: Artist)
        requires
            old(self).wf(),
        ensures
            r.display_name == input.display_name && r.birth_year == input.birth_year && r.death_year == input.death_year && r.region == input.region && r.biography == input.biography && r.tribe_id == input.tribe_id,
            final(self).wf(),
            r == artist_row(id, input, now, now),
            final(self)@ == old(self)@.insert(id, r),
    {
        let artist = Artist {
            id,
            display_name: input.display_name,
            birth_year: input.birth_year,
            death_year: input.death_year,
            region: input.region,
            biography: input.biography,
            tribe_id: input.tribe_id,
            created_at: now,
            updated_at: now,
        };
        let out = artist.duplicate();
        self.rows.upsert(artist);
        out
    }

    /// Inserts a new artist under a fresh random id, stamped with the
    /// current time.
    /// The clock and the random source are read only once every other check
    /// has passed; either being unavailable is an internal error and leaves
    /// the store unchanged.
    pub fn create(&mut self, input: ArtistInput) -> (r: AppResult<Artist>)
        requires
            old(self).wf(),
        ensures
            r matches Ok(a) ==> (a.display_name == input.display_name && a.birth_year == input.birth_year && a.death_year == input.death_year && a.region == input.region && a.biography == input.biography && a.tribe_id == input.tribe_id),
            final(self).wf(),
            unavailable(r) ==> final(self)@ == old(self)@,
            !unavailable(r) ==> (r matches Ok(a) && a == artist_row(a.id, input, a.created_at, a.created_at)
                && final(self)@ == old(self)@.insert(a.id, a)),
    {
        let now = match now_micros() {
            Some(t) => t,
            None => {
                return Err(clock_unavailable());
            },
        };
        let id = match new_id() {
            Some(id) => id,
            None => {
                return Err(random_unavailable());
            },
        };
        Ok(self.create_at(input, id, now))
    }

    /// Replaces every field of the artist `id` with `input` at time `now`,
    /// keeping `created_at`; `NotFound` if absent.
    pub fn update_at(&mut self, id: u128, input: ArtistInput, now: i64) -> (r: AppResult<Artist>)
        requires
            old(self).wf(),
        ensures
            r matches Ok(a) ==> (a.id == id && a.display_name == input.display_name && a.birth_year == input.birth_year && a.death_year == input.death_year && a.region == input.region && a.biography == input.biography && a.tribe_id == input.tribe_id && a.created_at == old(self)@[id].created_at),
            final(self).wf(),
            old(self)@.contains_key(id) ==> {
                let a = artist_row(id, input, old(self)@[id].created_at, now);
                &&& r == Ok::<Artist, AppError>(a)
                &&& final(self)@ == old(self)@.insert(id, a)
            },
            !old(self)@.contains_key(id) ==> (r matches Err(AppError::NotFound) && final(self)@
                == old(self)@),
    {
        let created_at = match self.rows.get(id) {
            Some(a) => a.created_at,
            None => { return Err(AppError::NotFound); },
        };
        let artist = Artist {
            id,
            display_name: input.display_name,
            birth_year: input.birth_year,
            death_year: input.death_year,
            region: input.region,
            biography: input.biography,
            tribe_id: input.tribe_id,
            created_at,
            updated_at: now,
        };
        let out = artist.duplicate();
        self.rows.upsert(artist);
        Ok(out)
    }

    /// Replaces every field of the artist `id` (PUT semantics), stamped with
    /// the current time; `NotFound` if absent.
    /// The clock and the random source are read only once every other check
    /// has passed; either being unavailable is an internal error and leaves
    /// the store unchanged.
    pub fn update(&mut self, id: u128, input: ArtistInput) -> (r: AppResult<Artist>)
        requires
            old(self).wf(),
        ensures
            r matches Ok(a) ==> (a.id == id && a.display_name == input.display_name && a.birth_year == input.birth_year && a.death_year == input.death_year && a.region == input.region && a.biography == input.biography && a.tribe_id == input.tribe_id && a.created_at == old(self)@[id].created_at),
            final(self).wf(),
            unavailable(r) ==> final(self)@ == old(self)@,
            !unavailable(r) ==> (old(self)@.contains_key(id) ==> (r matches Ok(a) && a == artist_row(
                id,
                input,
                old(self)@[id].created_at,
                a.updated_at,
            ) && final(self)@ == old(self)@.insert(id, a))),
            !old(self)@.contains_key(id) ==> (r matches Err(AppError::NotFound) && final(self)@
                == old(self)@),
    {
        if self.rows.get(id).is_none() {
            return Err(AppError::NotFound);
        }
        let now = match now_micros() {
            Some(t) => t,
            None => {
                return Err(clock_unavailable());
            },
        };
        self.update_at(id, input, now)
    }

    /// Deletes the artist `id`; `NotFound` if absent.
    pub fn delete(&mut self, id: u128) -> (r: AppResult<()>)
        requires
            old(self).wf(),
        ensures
            final(self).wf(),
            final(self)@ == old(self)@.remove(id),
            old(self)@.contains_key(id) ==> r is Ok,
            !old(self)@.contains_key(id) ==> r matches Err(AppError::NotFound),
    {
        if self.rows.remove(id) {
            Ok(())
        } else {
            Err(AppError::NotFound)
        }
    }
}

} // verus!
