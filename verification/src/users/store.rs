//! In-memory user store: emails are unique ignoring case, lookup by email
//! ignores case, update is a partial patch, list is ordered by email.

use vstd::prelude::*;
use super::model::User;
use crate::clock::{clock_unavailable, new_id, now_micros, random_unavailable, unavailable};
use crate::error::{AppError, AppResult};
use crate::table::{
    folded_taken, folded_unique, lemma_upsert_keeps_folded_unique, lists_map_sorted, Row, Table,
};
use crate::text::lowercase;

verus! {

impl Row for User {
    open spec fn key(&self) -> u128 {
        self.id
    }

    open spec fn sort_key(&self) -> Seq<char> {
        self.email@
    }

    fn id(&self) -> (r: u128) {
        self.id
    }

    fn sort_text(&self) -> (r: &str) {
        self.email.as_str()
    }

    fn duplicate(&self) -> (r: Self) {
        User {
            id: self.id,
            email: self.email.clone(),
            password_hash: self.password_hash.clone(),
            role: self.role.clone(),
            created_at: self.created_at,
            updated_at: self.updated_at,
        }
    }
}

/// The message a taken email is refused with.
pub open spec fn email_in_use_message() -> Seq<char> {
    "email already in use"@
}

fn email_in_use() -> (r: AppError)
    ensures
        r matches AppError::Conflict(m) && m@ == email_in_use_message(),
{
    AppError::Conflict("email already in use".to_owned())
}

/// The value of a patched field: the new value if given, else the old one.
pub open spec fn coalesce(new: Option<&str>, current: String) -> Seq<char> {
    match new {
        Some(v) => v@,
        None => current@,
    }
}

/// Law: a patched field takes the given value when one is given, and keeps
/// the current one otherwise.
pub proof fn law_coalesce(new: Option<&str>, current: String)
    ensures
        new matches Some(v) ==> coalesce(new, current) == v@,
        new is None ==> coalesce(new, current) == current@,
{
}

fn coalesce_exec(new: Option<&str>, current: &String) -> (r: String)
    ensures
        r@ == coalesce(new, *current),
{
    match new {
        Some(v) => v.to_owned(),
        None => current.clone(),
    }
}

/// In-memory user store.
pub struct InMemoryUserStore {
    rows: Table<User>,
}

impl InMemoryUserStore {
    /// The stored users, by id.
    pub open spec fn view(&self) -> Map<u128, User> {
        self.table()@
    }

    /// The underlying table.
    pub closed spec fn table(&self) -> Table<User> {
        self.rows
    }

    /// Ids are unique and no two emails are equal ignoring case.
    pub open spec fn wf(&self) -> bool {
        &&& self.table().wf()
        &&& folded_unique(self@)
    }

    /// An empty store.
    pub fn new() -> (s: Self)
        ensures
            s.wf(),
            s@ == Map::<u128, User>::empty(),
    {
        InMemoryUserStore { rows: Table::new() }
    }

    /// Every user, ordered by email.
    pub fn list(&self) -> (r: AppResult<Vec<User>>)
        requires
            self.wf(),
        ensures
            r matches Ok(v) && lists_map_sorted(v@, self@),
    {
        Ok(self.rows.sorted())
    }

    /// One user by id; `NotFound` if absent.
    pub fn find(&self, id: u128) -> (r: AppResult<User>)
        requires
            self.wf(),
        ensures
            self@.contains_key(id) ==> r == Ok::<User, AppError>(self@[id]),
            !self@.contains_key(id) ==> r matches Err(AppError::NotFound),
    {
        match self.rows.get(id) {
            Some(u) => Ok(u.duplicate()),
            None => Err(AppError::NotFound),
        }
    }

    /// The user whose email equals `email` ignoring case, or `None`.
    pub fn find_by_email(&self, email: &str) -> (r: AppResult<Option<User>>)
        requires
            self.wf(),
        ensures
            r matches Ok(o) && match o {
                Some(u) => self@.contains_key(u.id) && self@[u.id] == u && lowercase(u.email@)
                    == lowercase(email@),
                None => !folded_taken(self@, email@, None),
            },
    {
        match self.rows.find_folded(email) {
            Some(u) => Ok(Some(u.duplicate())),
            None => Ok(None),
        }
    }

    /// Stores a new user under `id` at time `now` with an already-hashed
    /// password; `Conflict` if the email is taken ignoring case. A user
    /// already stored under `id` is replaced.
    pub fn create_at(&mut self, email: &str, password_hash: &str, role: &str, id: u128, now: i64) -> (r:
        AppResult<User>)
        requires
            old(self).wf(),
        ensures
            final(self).wf(),
            folded_taken(old(self)@, email@, None) ==> (r matches Err(AppError::Conflict(m)) && m@
                == email_in_use_message() && final(self)@ == old(self)@),
            !folded_taken(old(self)@, email@, None) ==> (r matches Ok(u) && u.id == id && u.email@
                == email@ && u.password_hash@ == password_hash@ && u.role@ == role@ && u.created_at
                == now && u.updated_at == now && final(self)@ == old(self)@.insert(id, u)),
    {
        if self.rows.folded_taken(email, None) {
            return Err(email_in_use());
        }
        let user = User {
            id,
            email: email.to_owned(),
            password_hash: password_hash.to_owned(),
            role: role.to_owned(),
            created_at: now,
            updated_at: now,
        };
        proof {
            lemma_upsert_keeps_folded_unique(self@, user);
        }
        let out = user.duplicate();
        self.rows.upsert(user);
        Ok(out)
    }

    /// Inserts a new user under a fresh random id, stamped with the current
    /// time; `Conflict` if the email is taken ignoring case.
    /// The clock and the random source are read only once every other check
    /// has passed; either being unavailable is an internal error and leaves
    /// the store unchanged.
    pub fn create(&mut self, email: &str, password_hash: &str, role: &str) -> (r: AppResult<User>)
        requires
            old(self).wf(),
        ensures
            final(self).wf(),
            unavailable(r) ==> final(self)@ == old(self)@,
            folded_taken(old(self)@, email@, None) ==> (r matches Err(AppError::Conflict(m)) && m@
                == email_in_use_message() && final(self)@ == old(self)@),
            !unavailable(r) ==> (!folded_taken(old(self)@, email@, None) ==> (r matches Ok(u) && u.email@ == email@
                && u.password_hash@ == password_hash@ && u.role@ == role@ && u.created_at
                == u.updated_at && final(self)@ == old(self)@.insert(u.id, u))),
    {
        if self.rows.folded_taken(email, None) {
            return Err(email_in_use());
        }
        let now = match now_micros() {
            Some(t) => t,
            None => {
                return Err(clock_unavailable());
            },
        };
        let id = match new_id() {
            Some(id) => id,
            None => {
                return Err(random_unavailable());
            },
        };
        self.create_at(email, password_hash, role, id, now)
    }

    /// Partial update of the user `id` at time `now`: each given field
    /// replaces the stored one, each `None` leaves it untouched; `created_at`
    /// is kept. `Conflict` if a new email is taken by another user ignoring
    /// case (checked first), `NotFound` if absent.
    pub fn update_at(
        &mut self,
        id: u128,
        email: Option<&str>,
        password_hash: Option<&str>,
        role: Option<&str>,
        now: i64,
    ) -> (r: AppResult<User>)
        requires
            old(self).wf(),
        ensures
            r matches Ok(u) ==> (u.id == id && (email matches Some(e) ==> u.email@ == e@) && (email is None
                ==> u.email@ == old(self)@[id].email@) && (password_hash matches Some(h) ==> u.password_hash@
                == h@) && (password_hash is None ==> u.password_hash@ == old(self)@[id].password_hash@) && (
            role matches Some(x) ==> u.role@ == x@) && (role is None ==> u.role@ == old(self)@[id].role@)
                && u.created_at == old(self)@[id].created_at),
            final(self).wf(),
            (email matches Some(e) && folded_taken(old(self)@, e@, Some(id))) ==> (r matches Err(
                AppError::Conflict(m),
            ) && m@ == email_in_use_message() && final(self)@ == old(self)@),
            !(email matches Some(e) && folded_taken(old(self)@, e@, Some(id)))
                && !old(self)@.contains_key(id) ==> (r matches Err(AppError::NotFound) && final(self)@ == old(self)@),
            !(email matches Some(e) && folded_taken(old(self)@, e@, Some(id)))
                && old(self)@.contains_key(id) ==> (r matches Ok(u) && u.id == id && u.email@
                == coalesce(email, old(self)@[id].email) && u.password_hash@ == coalesce(
                password_hash,
                old(self)@[id].password_hash,
            ) && u.role@ == coalesce(role, old(self)@[id].role) && u.created_at == old(self)@[id].created_at && u.updated_at == now && final(self)@ == old(self)@.insert(id, u)),
    {
        if let Some(e) = email {
            if self.rows.folded_taken(e, Some(id)) {
                return Err(email_in_use());
            }
        }
        let existing = match self.rows.get(id) {
            Some(u) => u,
            None => { return Err(AppError::NotFound); },
        };
        let user = User {
            id,
            email: coalesce_exec(email, &existing.email),
            password_hash: coalesce_exec(password_hash, &existing.password_hash),
            role: coalesce_exec(role, &existing.role),
            created_at: existing.created_at,
            updated_at: now,
        };
        proof {
            assert(!folded_taken(self@, user.sort_key(), Some(id))) by {
                if folded_taken(self@, user.sort_key(), Some(id)) {
                    let k = choose|k: u128|
                        #![trigger self@[k]]
                        self@.contains_key(k) && Some(id) != Some(k) && lowercase(
                            self@[k].sort_key(),
                        ) == lowercase(user.sort_key());
                    if email is None {
                        assert(lowercase(self@[k].sort_key()) != lowercase(self@[id].sort_key()));
                    }
                }
            }
            lemma_upsert_keeps_folded_unique(self@, user);
        }
        let out = user.duplicate();
        self.rows.upsert(user);
        Ok(out)
    }

    /// Partial update of the user `id`, stamped with the current time.
    /// The clock and the random source are read only once every other check
    /// has passed; either being unavailable is an internal error and leaves
    /// the store unchanged.
    pub fn update(
        &mut self,
        id: u128,
        email: Option<&str>,
        password_hash: Option<&str>,
        role: Option<&str>,
    ) -> (r: AppResult<User>)
        requires
            old(self).wf(),
        ensures
            r matches Ok(u) ==> (u.id == id && (email matches Some(e) ==> u.email@ == e@) && (email is None
                ==> u.email@ == old(self)@[id].email@) && (password_hash matches Some(h) ==> u.password_hash@
                == h@) && (password_hash is None ==> u.password_hash@ == old(self)@[id].password_hash@) && (
            role matches Some(x) ==> u.role@ == x@) && (role is None ==> u.role@ == old(self)@[id].role@)
                && u.created_at == old(self)@[id].created_at),
            final(self).wf(),
            unavailable(r) ==> final(self)@ == old(self)@,
            (email matches Some(e) && folded_taken(old(self)@, e@, Some(id))) ==> (r matches Err(
                AppError::Conflict(m),
            ) && m@ == email_in_use_message() && final(self)@ == old(self)@),
            !(email matches Some(e) && folded_taken(old(self)@, e@, Some(id)))
                && !old(self)@.contains_key(id) ==> (r matches Err(AppError::NotFound) && final(self)@ == old(self)@),
            !unavailable(r) ==> (!(email matches Some(e) && folded_taken(old(self)@, e@, Some(id)))
                && old(self)@.contains_key(id) ==> (r matches Ok(u) && u.id == id && u.email@
                == coalesce(email, old(self)@[id].email) && u.password_hash@ == coalesce(
                password_hash,
                old(self)@[id].password_hash,
            ) && u.role@ == coalesce(role, old(self)@[id].role) && u.created_at == old(self)@[id].created_at && final(self)@ == old(self)@.insert(id, u))),
    {
        if let Some(e) = email {
            if self.rows.folded_taken(e, Some(id)) {
                return Err(email_in_use());
            }
        }
        if self.rows.get(id).is_none() {
            return Err(AppError::NotFound);
        }
        let now = match now_micros() {
            Some(t) => t,
            None => {
                return Err(clock_unavailable());
            },
        };
        self.update_at(id, email, password_hash, role, now)
    }

    /// Deletes the user `id`; `NotFound` if absent.
    pub fn delete(&mut self, id: u128) -> (r: AppResult<()>)
        requires
            old(self).wf(),
        ensures
            final(self).wf(),
            final(self)@ == old(self)@.remove(id),
            old(self)@.contains_key(id) ==> r is Ok,
            !old(self)@.contains_key(id) ==> r matches Err(AppError::NotFound),
    {
        let ghost before = self@;
        let found = self.rows.remove(id);
        proof {
            assert forall|a: u128, b: u128|
                self@.contains_key(a) && self@.contains_key(b) && a != b implies lowercase(
                #[trigger] self@[a].sort_key(),
            ) != lowercase(#[trigger] self@[b].sort_key()) by {
                assert(self@[a] == before[a] && self@[b] == before[b]);
                assert(lowercase(before[a].sort_key()) != lowercase(before[b].sort_key()));
            }
        }
        if found {
            Ok(())
        } else {
            Err(AppError::NotFound)
        }
    }
}

} // verus!
