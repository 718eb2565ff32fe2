//! In-memory tribe store: names are unique ignoring case, update leaves the
//! territory untouched, territory is set or cleared on its own, list is
//! ordered by name. Spatial search belongs to the database-backed store.

use vstd::prelude::*;
use super::model::{Tribe, TribeInput};
use crate::clock::{clock_unavailable, new_id, now_micros, random_unavailable, unavailable};
use crate::error::{AppError, AppResult};
use crate::table::{
    folded_taken, folded_unique, keys_unique, lemma_rows_map_key, lemma_upsert_keeps_folded_unique,
    lists_map_sorted, Row, Table,
};
use crate::text::{clone_opt, lowercase};

verus! {

impl Row for Tribe {
    open spec fn key(&self) -> u128 {
        self.id
    }

    open spec fn sort_key(&self) -> Seq<char> {
        self.name@
    }

    fn id(&self) -> (r: u128) {
        self.id
    }

    fn sort_text(&self) -> (r: &str) {
        self.name.as_str()
    }

    fn duplicate(&self) -> (r: Self) {
        Tribe {
            id: self.id,
            name: self.name.clone(),
            region: clone_opt(&self.region),
            language_group: clone_opt(&self.language_group),
            description: clone_opt(&self.description),
            territory: clone_opt(&self.territory),
            created_at: self.created_at,
            updated_at: self.updated_at,
        }
    }
}

/// The tribe stored under `id` from `input`, with the given territory and
/// timestamps.
pub open spec fn tribe_row(
    id: u128,
    input: TribeInput,
    territory: Option<String>,
    created_at: i64,
    updated_at: i64,
) -> Tribe {
    Tribe {
        id,
        name: input.name,
        region: input.region,
        language_group: input.language_group,
        description: input.description,
        territory,
        created_at,
        updated_at,
    }
}

/// Law: a stored tribe keeps each input field in its own field, with the
/// id, territory and times it was stored with.
pub proof fn law_stored_tribe_keeps_input(
    id: u128,
    input: TribeInput,
    territory: Option<String>,
    created_at: i64,
    updated_at: i64,
)
    ensures
        ({
            let t = tribe_row(id, input, territory, created_at, updated_at);
            &&& t.name == input.name && t.region == input.region && t.language_group == input.language_group && t.description == input.description
            &&& t.id == id && t.territory == territory
            &&& t.created_at == created_at && t.updated_at == updated_at
        }),
{
}

/// The message a duplicate tribe name is refused with.
pub open spec fn duplicate_name_message() -> Seq<char> {
    "a tribe with this name already exists"@
}

fn build_tribe(
    id: u128,
    input: TribeInput,
    territory: Option<String>,
    created_at: i64,
    updated_at: i64,
) -> (r: Tribe)
    ensures
        r == tribe_row(id, input, territory, created_at, updated_at),
{
    Tribe {
        id,
        name: input.name,
        region: input.region,
        language_group: input.language_group,
        description: input.description,
        territory,
        created_at,
        updated_at,
    }
}

fn duplicate_name() -> (r: AppError)
    ensures
        r matches AppError::Conflict(m) && m@ == duplicate_name_message(),
{
    AppError::Conflict("a tribe with this name already exists".to_owned())
}

/// `rows` lists exactly the tribes of `m` that have a territory, each once.
pub open spec fn lists_with_territory(rows: Seq<Tribe>, m: Map<u128, Tribe>) -> bool {
    &&& keys_unique(rows)
    &&& forall|i: int|
        0 <= i < rows.len() ==> rows[i].territory is Some && m.contains_key(#[trigger] rows[i].key())
            && m[rows[i].key()] == rows[i]
    &&& forall|k: u128| #[trigger]
        m.contains_key(k) && m[k].territory is Some ==> exists|i: int|
            0 <= i < rows.len() && #[trigger] rows[i] == m[k]
}

/// Law: replacing a tribe's fields keeps its territory and creation time,
/// takes everything else from the input, and stamps the update time.
pub proof fn law_update_keeps_territory(m: Map<u128, Tribe>, id: u128, input: TribeInput, now: i64)
    requires
        m.contains_key(id),
    ensures
        ({
            let t = tribe_row(id, input, m[id].territory, m[id].created_at, now);
            &&& t.territory == m[id].territory
            &&& t.created_at == m[id].created_at
            &&& t.id == id
            &&& t.name == input.name
            &&& t.updated_at == now
        }),
{
}

/// `t` with its territory set to `territory`, stamped at `now`.
pub open spec fn with_territory(t: Tribe, territory: Option<String>, now: i64) -> Tribe {
    Tribe { territory, updated_at: now, ..t }
}

/// Law: setting a territory changes the territory to the one given and
/// the update time, and keeps every other field.
pub proof fn law_territory_set_keeps_rest(t: Tribe, territory: Option<String>, now: i64)
    ensures
        ({
            let u = with_territory(t, territory, now);
            &&& u.territory == territory && u.updated_at == now
            &&& u.id == t.id && u.name == t.name && u.region == t.region
            &&& u.language_group == t.language_group && u.description == t.description
            &&& u.created_at == t.created_at
        }),
{
}

/// Law: setting a territory and then clearing it gives back the tribe as
/// it was, but for its update time.
pub proof fn law_set_then_clear_territory(t: Tribe, geojson: String, set_at: i64, cleared_at: i64)
    requires
        t.territory is None,
    ensures
        with_territory(with_territory(t, Some(geojson), set_at), None, cleared_at) == with_territory(
            t,
            None,
            cleared_at,
        ),
        with_territory(t, None, cleared_at) == (Tribe { updated_at: cleared_at, ..t }),
{
}

/// In-memory tribe store.
pub struct InMemoryTribeStore {
    rows: Table<Tribe>,
}

impl InMemoryTribeStore {
    /// The stored tribes, by id.
    pub open spec fn view(&self) -> Map<u128, Tribe> {
        self.table()@
    }

    /// The underlying table.
    pub closed spec fn table(&self) -> Table<Tribe> {
        self.rows
    }

    /// Ids are unique and no two names are equal ignoring case.
    pub open spec fn wf(&self) -> bool {
        &&& self.table().wf()
        &&& folded_unique(self@)
    }

    /// An empty store.
    pub fn new() -> (s: Self)
        ensures
            s.wf(),
            s@ == Map::<u128, Tribe>::empty(),
    {
        InMemoryTribeStore { rows: Table::new() }
    }

    /// Every tribe, ordered by name.
    pub fn list(&self) -> (r: AppResult<Vec<Tribe>>)
        requires
            self.wf(),
        ensures
            r matches Ok(v) && lists_map_sorted(v@, self@),
    {
        Ok(self.rows.sorted())
    }

    /// One tribe by id; `NotFound` if absent.
    pub fn find(&self, id: u128) -> (r: AppResult<Tribe>)
        requires
            self.wf(),
        ensures
            self@.contains_key(id) ==> r == Ok::<Tribe, AppError>(self@[id]),
            !self@.contains_key(id) ==> r matches Err(AppError::NotFound),
    {
        match self.rows.get(id) {
            Some(t) => Ok(t.duplicate()),
            None => Err(AppError::NotFound),
        }
    }

    /// Stores a new tribe from `input` under `id` at time `now`, without a
    /// territory; `Conflict` if another tribe has the same name ignoring
    /// case. A tribe already stored under `id` is replaced.
    pub fn create_at(&mut self, input: TribeInput, id: u128, now: i64) -> (r: AppResult<Tribe>)
        requires
            old(self).wf(),
        ensures
            r matches Ok(t) ==> (t.name == input.name && t.region == input.region && t.language_group == input.language_group && t.description == input.description && t.territory is None),
            final(self).wf(),
            folded_taken(old(self)@, input.name@, None) ==> (r matches Err(AppError::Conflict(m))
                && m@ == duplicate_name_message() && final(self)@ == old(self)@),
            !folded_taken(old(self)@, input.name@, None) ==> {
                let t = tribe_row(id, input, None, now, now);
                &&& r == Ok::<Tribe, AppError>(t)
                &&& final(self)@ == old(self)@.insert(id, t)
            },
    {
        if self.rows.folded_taken(input.name.as_str(), None) {
            return Err(duplicate_name());
        }
        let tribe = build_tribe(id, input, None, now, now);
        proof {
            lemma_upsert_keeps_folded_unique(self@, tribe);
        }
        let out = tribe.duplicate();
        self.rows.upsert(tribe);
        Ok(out)
    }

    /// Inserts a new tribe under a fresh random id, stamped with the current
    /// time; `Conflict` if the name is taken ignoring case.
    /// The clock and the random source are read only once every other check
    /// has passed; either being unavailable is an internal error and leaves
    /// the store unchanged.
    pub fn create(&mut self, input: TribeInput) -> (r: AppResult<Tribe>)
        requires
            old(self).wf(),
        ensures
            r matches Ok(t) ==> (t.name == input.name && t.region == input.region && t.language_group == input.language_group && t.description == input.description && t.territory is None),
            final(self).wf(),
            unavailable(r) ==> final(self)@ == old(self)@,
            folded_taken(old(self)@, input.name@, None) ==> (r matches Err(AppError::Conflict(m))
                && m@ == duplicate_name_message() && final(self)@ == old(self)@),
            !unavailable(r) ==> (!folded_taken(old(self)@, input.name@, None) ==> (r matches Ok(t) && t == tribe_row(
                t.id,
                input,
                None,
                t.created_at,
                t.created_at,
            ) && final(self)@ == old(self)@.insert(t.id, t))),
    {
        if self.rows.folded_taken(input.name.as_str(), None) {
            return Err(duplicate_name());
        }
        let now = match now_micros() {
            Some(t) => t,
            None => {
                return Err(clock_unavailable());
            },
        };
        let id = match new_id() {
            Some(id) => id,
            None => {
                return Err(random_unavailable());
            },
        };
        self.create_at(input, id, now)
    }

    /// Replaces name, region, language group and description of the tribe
    /// `id` at time `now`, keeping its territory and `created_at`.
    /// `Conflict` if another tribe has the new name ignoring case (checked
    /// first), `NotFound` if absent.
    pub fn update_at(&mut self, id: u128, input: TribeInput, now: i64) -> (r: AppResult<Tribe>)
        requires
            old(self).wf(),
        ensures
            r matches Ok(t) ==> (t.id == id && t.name == input.name && t.region == input.region && t.language_group == input.language_group && t.description == input.description && t.territory == old(self)@[id].territory && t.created_at == old(self)@[id].created_at),
            final(self).wf(),
            folded_taken(old(self)@, input.name@, Some(id)) ==> (r matches Err(
                AppError::Conflict(m),
            ) && m@ == duplicate_name_message() && final(self)@ == old(self)@),
            !folded_taken(old(self)@, input.name@, Some(id)) && !old(self)@.contains_key(id) ==> (
            r matches Err(AppError::NotFound) && final(self)@ == old(self)@),
            !folded_taken(old(self)@, input.name@, Some(id)) && old(self)@.contains_key(id) ==> {
                let t = tribe_row(
                    id,
                    input,
                    old(self)@[id].territory,
                    old(self)@[id].created_at,
                    now,
                );
                &&& r == Ok::<Tribe, AppError>(t)
                &&& final(self)@ == old(self)@.insert(id, t)
            },
    {
        if self.rows.folded_taken(input.name.as_str(), Some(id)) {
            return Err(duplicate_name());
        }
        let (territory, created_at) = match self.rows.get(id) {
            Some(t) => (clone_opt(&t.territory), t.created_at),
            None => { return Err(AppError::NotFound); },
        };
        let tribe = build_tribe(id, input, territory, created_at, now);
        proof {
            lemma_upsert_keeps_folded_unique(self@, tribe);
        }
        let out = tribe.duplicate();
        self.rows.upsert(tribe);
        Ok(out)
    }

    /// Replaces the fields of the tribe `id` (PUT semantics), stamped with
    /// the current time; territory untouched.
    /// The clock and the random source are read only once every other check
    /// has passed; either being unavailable is an internal error and leaves
    /// the store unchanged.
    pub fn update(&mut self, id: u128, input: TribeInput) -> (r: AppResult<Tribe>)
        requires
            old(self).wf(),
        ensures
            r matches Ok(t) ==> (t.id == id && t.name == input.name && t.region == input.region && t.language_group == input.language_group && t.description == input.description && t.territory == old(self)@[id].territory && t.created_at == old(self)@[id].created_at),
            final(self).wf(),
            unavailable(r) ==> final(self)@ == old(self)@,
            folded_taken(old(self)@, input.name@, Some(id)) ==> (r matches Err(
                AppError::Conflict(m),
            ) && m@ == duplicate_name_message() && final(self)@ == old(self)@),
            !folded_taken(old(self)@, input.name@, Some(id)) && !old(self)@.contains_key(id) ==> (
            r matches Err(AppError::NotFound) && final(self)@ == old(self)@),
            !unavailable(r) ==> (!folded_taken(old(self)@, input.name@, Some(id)) && old(self)@.contains_key(id) ==> (
            r matches Ok(t) && t == tribe_row(
                id,
                input,
                old(self)@[id].territory,
                old(self)@[id].created_at,
                t.updated_at,
            ) && final(self)@ == old(self)@.insert(id, t))),
    {
        if self.rows.folded_taken(input.name.as_str(), Some(id)) {
            return Err(duplicate_name());
        }
        if self.rows.get(id).is_none() {
            return Err(AppError::NotFound);
        }
        let now = match now_micros() {
            Some(t) => t,
            None => {
                return Err(clock_unavailable());
            },
        };
        self.update_at(id, input, now)
    }

    /// Deletes the tribe `id`; `NotFound` if absent.
    pub fn delete(&mut self, id: u128) -> (r: AppResult<()>)
        requires
            old(self).wf(),
        ensures
            final(self).wf(),
            final(self)@ == old(self)@.remove(id),
            old(self)@.contains_key(id) ==> r is Ok,
            !old(self)@.contains_key(id) ==> r matches Err(AppError::NotFound),
    {
        let ghost before = self@;
        let found = self.rows.remove(id);
        proof {
            assert forall|a: u128, b: u128|
                self@.contains_key(a) && self@.contains_key(b) && a != b implies lowercase(
                #[trigger] self@[a].sort_key(),
            ) != lowercase(#[trigger] self@[b].sort_key()) by {
                assert(self@[a] == before[a] && self@[b] == before[b]);
                assert(lowercase(before[a].sort_key()) != lowercase(before[b].sort_key()));
            }
        }
        if found {
            Ok(())
        } else {
            Err(AppError::NotFound)
        }
    }

    /// Every tribe that has a territory. This store does not model
    /// geometry: the point and radius of a spatial search are the
    /// database-backed store's business, and here every tribe with a
    /// territory is a match.
    pub fn search_near(&self) -> (r: AppResult<Vec<Tribe>>)
        requires
            self.wf(),
        ensures
            r matches Ok(v) && lists_with_territory(v@, self@),
    {
        let ghost rows = self.table().rows();
        let mut out: Vec<Tribe> = Vec::new();
        let ghost mut pos: Seq<int> = Seq::empty();
        let n = self.rows.len();
        let mut i: usize = 0;
        while i < n
            invariant
                self.wf(),
                rows == self.table().rows(),
                n == rows.len(),
                i <= n,
                pos.len() == out@.len(),
                forall|a: int| 0 <= a < pos.len() ==> 0 <= #[trigger] pos[a] < i && out@[a] == rows[pos[a]]
                    && rows[pos[a]].territory is Some,
                forall|a: int, b: int| 0 <= a < b < pos.len() ==> #[trigger] pos[a] < #[trigger] pos[b],
                forall|j: int|
                    0 <= j < i && (#[trigger] rows[j]).territory is Some ==> exists|a: int|
                        0 <= a < pos.len() && pos[a] == j,
            decreases n - i,
        {
            let ghost before = pos;
            let t = self.rows.row_at(i);
            if t.territory.is_some() {
                let copy = t.duplicate();
                out.push(copy);
                proof {
                    pos = pos.push(i as int);
                    assert(pos[pos.len() - 1] == i);
                }
            }
            proof {
                assert forall|j: int|
                    0 <= j < i + 1 && (#[trigger] rows[j]).territory is Some implies exists|a: int|
                        0 <= a < pos.len() && pos[a] == j by {
                    if j == i {
                        assert(pos[pos.len() - 1] == j);
                    } else {
                        let a = choose|a: int| 0 <= a < before.len() && before[a] == j;
                        assert(pos[a] == before[a]);
                    }
                }
            }
            i += 1;
        }
        proof {
            assert forall|a: int, b: int|
                0 <= a < out@.len() && 0 <= b < out@.len() && a != b implies #[trigger] out@[a].key()
                != #[trigger] out@[b].key() by {
                assert(pos[a] != pos[b]);
            }
            assert forall|a: int| 0 <= a < out@.len() implies out@[a].territory is Some
                && self@.contains_key(#[trigger] out@[a].key()) && self@[out@[a].key()] == out@[a] by {
                self.table().lemma_at(pos[a]);
            }
            assert forall|k: u128| #[trigger]
                self@.contains_key(k) && self@[k].territory is Some implies exists|a: int|
                0 <= a < out@.len() && #[trigger] out@[a] == self@[k] by {
                let j = lemma_rows_map_key(rows, k);
                assert(rows[j].territory is Some);
                let a = choose|a: int| 0 <= a < pos.len() && pos[a] == j;
                assert(out@[a] == self@[k]);
            }
            assert forall|a: int| 0 <= a < out@.len() implies (#[trigger] out@[a]).territory is Some by {
                assert(out@[a] == rows[pos[a]]);
            }
        }
        Ok(out)
    }

    /// Sets (`Some`) or clears (`None`) the territory of the tribe `id` at
    /// time `now`, keeping every other field; `NotFound` if absent.
    pub fn set_territory_at(&mut self, id: u128, geojson: Option<String>, now: i64) -> (r: AppResult<
        Tribe,
    >)
        requires
            old(self).wf(),
        ensures
            r matches Ok(t) ==> (t.territory == geojson && t.id == id && t.name == old(self)@[id].name
                && t.region == old(self)@[id].region && t.language_group == old(self)@[id].language_group
                && t.description == old(self)@[id].description && t.created_at == old(self)@[id].created_at),
            final(self).wf(),
            !old(self)@.contains_key(id) ==> (r matches Err(AppError::NotFound) && final(self)@
                == old(self)@),
            old(self)@.contains_key(id) ==> {
                let t = with_territory(old(self)@[id], geojson, now);
                &&& r == Ok::<Tribe, AppError>(t)
                &&& final(self)@ == old(self)@.insert(id, t)
            },
    {
        let existing = match self.rows.get(id) {
            Some(t) => t.duplicate(),
            None => { return Err(AppError::NotFound); },
        };
        let tribe = Tribe { territory: geojson, updated_at: now, ..existing };
        proof {
            assert(!folded_taken(self@, tribe.sort_key(), Some(id))) by {
                if folded_taken(self@, tribe.sort_key(), Some(id)) {
                    let k = choose|k: u128|
                        #![trigger self@[k]]
                        self@.contains_key(k) && Some(id) != Some(k) && lowercase(
                            self@[k].sort_key(),
                        ) == lowercase(tribe.sort_key());
                    assert(lowercase(self@[k].sort_key()) != lowercase(self@[id].sort_key()));
                }
            }
            lemma_upsert_keeps_folded_unique(self@, tribe);
        }
        let out = tribe.duplicate();
        self.rows.upsert(tribe);
        Ok(out)
    }

    /// Sets (`Some`) or clears (`None`) the territory of the tribe `id`,
    /// stamped with the current time; `NotFound` if absent.
    /// The clock and the random source are read only once every other check
    /// has passed; either being unavailable is an internal error and leaves
    /// the store unchanged.
    pub fn set_territory(&mut self, id: u128, geojson: Option<String>) -> (r: AppResult<Tribe>)
        requires
            old(self).wf(),
        ensures
            r matches Ok(t) ==> (t.territory == geojson && t.id == id && t.name == old(self)@[id].name
                && t.region == old(self)@[id].region && t.language_group == old(self)@[id].language_group
                && t.description == old(self)@[id].description && t.created_at == old(self)@[id].created_at),
            final(self).wf(),
            unavailable(r) ==> final(self)@ == old(self)@,
            !old(self)@.contains_key(id) ==> (r matches Err(AppError::NotFound) && final(self)@
                == old(self)@),
            !unavailable(r) ==> (old(self)@.contains_key(id) ==> (r matches Ok(t) && t == with_territory(
                old(self)@[id],
                geojson,
                t.updated_at,
            ) && final(self)@ == old(self)@.insert(id, t))),
    {
        if self.rows.get(id).is_none() {
            return Err(AppError::NotFound);
        }
        let now = match now_micros() {
            Some(t) => t,
            None => {
                return Err(clock_unavailable());
            },
        };
        self.set_territory_at(id, geojson, now)
    }
}

} // verus!
