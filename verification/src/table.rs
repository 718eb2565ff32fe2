//! A table of rows keyed by a 128-bit id: the storage shared by the
//! in-memory stores. Its view is the map from id to row; `sorted` lists the
//! rows ordered by their sort text.

use vstd::prelude::*;
use vstd::seq_lib::{to_multiset_build, to_multiset_contains, to_multiset_insert};
use crate::text::{
    chars_of, lemma_lex_le_total, lemma_lex_le_transitive, lex_le, lex_le_exec, lowercase, str_eq,
    to_lowercase,
};

verus! {

/// A stored row: it has an id, a text it is listed by, and can be copied.
pub trait Row: Sized {
    /// The row's id.
    spec fn key(&self) -> u128;

    /// The text rows are listed by.
    spec fn sort_key(&self) -> Seq<char>;

    /// The row's id.
    fn id(&self) -> (r: u128)
        ensures
            r == self.key(),
    ;

    /// The text rows are listed by.
    fn sort_text(&self) -> (r: &str)
        ensures
            r@ == self.sort_key(),
    ;

    /// An equal copy of the row.
    fn duplicate(&self) -> (r: Self)
        ensures
            r == *self,
    ;
}

/// No two rows share an id.
pub open spec fn keys_unique<R: Row>(rows: Seq<R>) -> bool {
    forall|i: int, j: int|
        0 <= i < rows.len() && 0 <= j < rows.len() && i != j ==> #[trigger] rows[i].key()
            != #[trigger] rows[j].key()
}

/// Some row has id `k`.
pub open spec fn has_key<R: Row>(rows: Seq<R>, k: u128) -> bool {
    exists|i: int| 0 <= i < rows.len() && #[trigger] rows[i].key() == k
}

/// The map from id to row of a sequence of rows.
pub open spec fn rows_map<R: Row>(rows: Seq<R>) -> Map<u128, R> {
    Map::new(
        |k: u128| has_key(rows, k),
        |k: u128| rows[choose|i: int| 0 <= i < rows.len() && #[trigger] rows[i].key() == k],
    )
}

/// Rows are listed in order of their sort text.
pub open spec fn sorted_by_text<R: Row>(rows: Seq<R>) -> bool {
    forall|i: int, j: int|
        0 <= i < j < rows.len() ==> lex_le(#[trigger] rows[i].sort_key(), #[trigger] rows[j].sort_key())
}

/// `rows` lists exactly the rows of `m`, each once, in order of their sort
/// text.
pub open spec fn lists_map_sorted<R: Row>(rows: Seq<R>, m: Map<u128, R>) -> bool {
    &&& sorted_by_text(rows)
    &&& keys_unique(rows)
    &&& forall|i: int|
        0 <= i < rows.len() ==> m.contains_key(#[trigger] rows[i].key()) && m[rows[i].key()]
            == rows[i]
    &&& forall|k: u128| #[trigger]
        m.contains_key(k) ==> exists|i: int| 0 <= i < rows.len() && #[trigger] rows[i] == m[k]
}

/// Some row of `m` other than the one under `except` has a sort text that
/// lowercases to the same text as `text` does.
pub open spec fn folded_taken<R: Row>(m: Map<u128, R>, text: Seq<char>, except: Option<u128>) -> bool {
    exists|k: u128|
        #![trigger m[k]]
        m.contains_key(k) && except != Some(k) && lowercase(m[k].sort_key()) == lowercase(text)
}

/// No two rows of `m` have sort texts that lowercase to the same text.
pub open spec fn folded_unique<R: Row>(m: Map<u128, R>) -> bool {
    forall|a: u128, b: u128|
        m.contains_key(a) && m.contains_key(b) && a != b ==> lowercase(#[trigger] m[a].sort_key())
            != lowercase(#[trigger] m[b].sort_key())
}

/// Storing a row whose text no other row shares (ignoring case) keeps the
/// texts unique.
pub proof fn lemma_upsert_keeps_folded_unique<R: Row>(m: Map<u128, R>, row: R)
    requires
        folded_unique(m),
        !folded_taken(m, row.sort_key(), Some(row.key())),
    ensures
        folded_unique(m.insert(row.key(), row)),
{
    let m2 = m.insert(row.key(), row);
    assert forall|a: u128, b: u128|
        m2.contains_key(a) && m2.contains_key(b) && a != b implies lowercase(#[trigger] m2[a].sort_key())
        != lowercase(#[trigger] m2[b].sort_key()) by {
        if a == row.key() {
            assert(m.contains_key(b) && m[b] == m2[b]);
        } else if b == row.key() {
            assert(m.contains_key(a) && m[a] == m2[a]);
        }
    }
}

/// Law: after a row is stored, looking up its id finds that row, and every
/// other id finds what it found before.
pub proof fn law_find_after_store<R: Row>(m: Map<u128, R>, row: R)
    ensures
        m.insert(row.key(), row).contains_key(row.key()),
        m.insert(row.key(), row)[row.key()] == row,
        forall|k: u128|
            k != row.key() ==> (#[trigger] m.insert(row.key(), row).contains_key(k) == m.contains_key(k)
                && (m.contains_key(k) ==> m.insert(row.key(), row)[k] == m[k])),
{
}

/// Law: after an id is deleted, looking it up (or deleting it again) finds
/// nothing, and every other id finds what it found before.
pub proof fn law_find_after_delete<R: Row>(m: Map<u128, R>, id: u128)
    ensures
        !m.remove(id).contains_key(id),
        forall|k: u128|
            k != id ==> (#[trigger] m.remove(id).contains_key(k) == m.contains_key(k) && (m.contains_key(
                k,
            ) ==> m.remove(id)[k] == m[k])),
{
}

/// With unique ids, the map holds every row at its own id.
pub proof fn lemma_rows_map_at<R: Row>(rows: Seq<R>, i: int)
    requires
        keys_unique(rows),
        0 <= i < rows.len(),
    ensures
        rows_map(rows).contains_key(rows[i].key()),
        rows_map(rows)[rows[i].key()] == rows[i],
{
    let k = rows[i].key();
    assert(has_key(rows, k));
    let j = choose|j: int| 0 <= j < rows.len() && #[trigger] rows[j].key() == k;
    assert(rows[j].key() == rows[i].key());
}

/// With unique ids, every id of the map is the id of some row.
pub proof fn lemma_rows_map_key<R: Row>(rows: Seq<R>, k: u128) -> (i: int)
    requires
        keys_unique(rows),
        rows_map(rows).contains_key(k),
    ensures
        0 <= i < rows.len(),
        rows[i].key() == k,
        rows_map(rows)[k] == rows[i],
{
    let i = choose|i: int| 0 <= i < rows.len() && #[trigger] rows[i].key() == k;
    lemma_rows_map_at(rows, i);
    i
}

/// A sequence of rows with unique ids holds no row twice.
proof fn lemma_keys_unique_no_duplicates<R: Row>(rows: Seq<R>)
    requires
        keys_unique(rows),
    ensures
        rows.no_duplicates(),
{
    assert forall|i: int, j: int|
        0 <= i < rows.len() && 0 <= j < rows.len() && i != j implies rows[i] != rows[j] by {
        assert(rows[i].key() != rows[j].key());
    }
}

/// A table of rows with unique ids.
pub struct Table<R> {
    rows: Vec<R>,
}

impl<R: Row> Table<R> {
    /// The rows, in storage order.
    pub closed spec fn rows(&self) -> Seq<R> {
        self.rows@
    }

    /// The map from id to row.
    pub open spec fn view(&self) -> Map<u128, R> {
        rows_map(self.rows())
    }

    /// No two rows share an id.
    pub open spec fn wf(&self) -> bool {
        keys_unique(self.rows())
    }

    /// An empty table.
    pub fn new() -> (t: Self)
        ensures
            t.wf(),
            t@ == Map::<u128, R>::empty(),
            t.rows().len() == 0,
    {
        let t = Table { rows: Vec::new() };
        assert(t@ =~= Map::<u128, R>::empty());
        t
    }

    /// The number of rows.
    pub fn len(&self) -> (r: usize)
        ensures
            r == self.rows().len(),
    {
        self.rows.len()
    }

    /// The row at storage position `i`.
    pub fn row_at(&self, i: usize) -> (r: &R)
        requires
            i < self.rows().len(),
        ensures
            *r == self.rows()[i as int],
    {
        &self.rows[i]
    }

    /// With unique ids, the map holds every row at its own id.
    pub proof fn lemma_at(&self, i: int)
        requires
            self.wf(),
            0 <= i < self.rows().len(),
        ensures
            self@.contains_key(self.rows()[i].key()),
            self@[self.rows()[i].key()] == self.rows()[i],
    {
        lemma_rows_map_at(self.rows(), i);
    }

    /// The storage position of the row with id `id`.
    pub fn position(&self, id: u128) -> (r: Option<usize>)
        requires
            self.wf(),
        ensures
            match r {
                Some(i) => i < self.rows().len() && self.rows()[i as int].key() == id
                    && self@.contains_key(id) && self@[id] == self.rows()[i as int],
                None => !self@.contains_key(id),
            },
    {
        let mut i: usize = 0;
        while i < self.rows.len()
            invariant
                self.wf(),
                i <= self.rows@.len(),
                forall|j: int| 0 <= j < i ==> #[trigger] self.rows@[j].key() != id,
            decreases self.rows@.len() - i,
        {
            if self.rows[i].id() == id {
                proof {
                    lemma_rows_map_at(self.rows@, i as int);
                }
                return Some(i);
            }
            i += 1;
        }
        None
    }

    /// The row with id `id`, if any.
    pub fn get(&self, id: u128) -> (r: Option<&R>)
        requires
            self.wf(),
        ensures
            match r {
                Some(row) => self@.contains_key(id) && *row == self@[id],
                None => !self@.contains_key(id),
            },
    {
        match self.position(id) {
            Some(i) => Some(&self.rows[i]),
            None => None,
        }
    }

    /// Stores `row` under its id, replacing any row with the same id.
    pub fn upsert(&mut self, row: R)
        requires
            old(self).wf(),
        ensures
            final(self).wf(),
            final(self)@ == old(self)@.insert(row.key(), row),
    {
        let ghost k = row.key();
        let ghost before = self.rows@;
        match self.position(row.id()) {
            Some(i) => {
                self.rows.set(i, row);
                proof {
                    let after = self.rows@;
                    assert(keys_unique(after)) by {
                        assert forall|a: int, b: int|
                            0 <= a < after.len() && 0 <= b < after.len() && a != b implies #[trigger] after[a].key()
                            != #[trigger] after[b].key() by {
                            assert(before[a].key() != before[b].key());
                        }
                    }
                    assert forall|x: u128| #[trigger] rows_map(after).contains_key(x)
                        == rows_map(before).insert(k, row).contains_key(x) by {
                        if has_key(before, x) {
                            let j = choose|j: int| 0 <= j < before.len() && #[trigger] before[j].key() == x;
                            assert(after[j].key() == x || j == i);
                        }
                        if has_key(after, x) {
                            let j = choose|j: int| 0 <= j < after.len() && #[trigger] after[j].key() == x;
                            assert(before[j].key() == x || j == i);
                        }
                    }
                    assert forall|x: u128| #[trigger] rows_map(after).contains_key(x) implies rows_map(
                        after,
                    )[x] == rows_map(before).insert(k, row)[x] by {
                        let j = lemma_rows_map_key(after, x);
                        if j != i {
                            lemma_rows_map_at(before, j);
                        }
                    }
                    assert(rows_map(after) =~= rows_map(before).insert(k, row));
                }
            },
            None => {
                self.rows.push(row);
                proof {
                    let after = self.rows@;
                    assert(!has_key(before, k));
                    assert(keys_unique(after)) by {
                        assert forall|a: int, b: int|
                            0 <= a < after.len() && 0 <= b < after.len() && a != b implies #[trigger] after[a].key()
                            != #[trigger] after[b].key() by {
                            if a < before.len() && b < before.len() {
                                assert(before[a].key() != before[b].key());
                            } else if a < before.len() {
                                assert(before[a].key() != k);
                            } else {
                                assert(before[b].key() != k);
                            }
                        }
                    }
                    assert forall|x: u128| #[trigger] rows_map(after).contains_key(x)
                        == rows_map(before).insert(k, row).contains_key(x) by {
                        if has_key(before, x) {
                            let j = choose|j: int| 0 <= j < before.len() && #[trigger] before[j].key() == x;
                            assert(after[j].key() == x);
                        }
                        if x == k {
                            assert(after[before.len() as int].key() == x);
                        }
                    }
                    assert forall|x: u128| #[trigger] rows_map(after).contains_key(x) implies rows_map(
                        after,
                    )[x] == rows_map(before).insert(k, row)[x] by {
                        let j = lemma_rows_map_key(after, x);
                        if j < before.len() {
                            lemma_rows_map_at(before, j);
                        }
                    }
                    assert(rows_map(after) =~= rows_map(before).insert(k, row));
                }
            },
        }
    }

    /// Removes the row with id `id`; returns whether there was one.
    pub fn remove(&mut self, id: u128) -> (r: bool)
        requires
            old(self).wf(),
        ensures
            final(self).wf(),
            r == old(self)@.contains_key(id),
            final(self)@ == old(self)@.remove(id),
    {
        let ghost before = self.rows@;
        match self.position(id) {
            Some(i) => {
                self.rows.remove(i);
                proof {
                    let after = self.rows@;
                    assert(after == before.remove(i as int));
                    assert(keys_unique(after)) by {
                        assert forall|a: int, b: int|
                            0 <= a < after.len() && 0 <= b < after.len() && a != b implies #[trigger] after[a].key()
                            != #[trigger] after[b].key() by {
                            let a2 = if a < i { a } else { a + 1 };
                            let b2 = if b < i { b } else { b + 1 };
                            assert(after[a] == before[a2]);
                            assert(after[b] == before[b2]);
                            assert(before[a2].key() != before[b2].key());
                        }
                    }
                    assert forall|x: u128| #[trigger] rows_map(after).contains_key(x)
                        == rows_map(before).remove(id).contains_key(x) by {
                        if has_key(before, x) && x != id {
                            let j = choose|j: int| 0 <= j < before.len() && #[trigger] before[j].key() == x;
                            assert(j != i);
                            let j2 = if j < i { j } else { j - 1 };
                            assert(after[j2] == before[j]);
                        }
                        if has_key(after, x) {
                            let j = choose|j: int| 0 <= j < after.len() && #[trigger] after[j].key() == x;
                            let j2 = if j < i { j } else { j + 1 };
                            assert(after[j] == before[j2]);
                            assert(j2 != i);
                            assert(before[j2].key() != before[i as int].key());
                        }
                    }
                    assert forall|x: u128| #[trigger] rows_map(after).contains_key(x) implies rows_map(
                        after,
                    )[x] == rows_map(before).remove(id)[x] by {
                        let j = lemma_rows_map_key(after, x);
                        let j2 = if j < i { j } else { j + 1 };
                        assert(after[j] == before[j2]);
                        lemma_rows_map_at(before, j2);
                    }
                    assert(rows_map(after) =~= rows_map(before).remove(id));
                }
                true
            },
            None => {
                assert(self@ =~= old(self)@.remove(id));
                false
            },
        }
    }

    /// Whether a row other than the one under `except` has a sort text that
    /// lowercases to the same text as `text`.
    pub fn folded_taken(&self, text: &str, except: Option<u128>) -> (r: bool)
        requires
            self.wf(),
        ensures
            r == folded_taken(self@, text@, except),
    {
        let target = to_lowercase(text);
        let mut i: usize = 0;
        while i < self.rows.len()
            invariant
                self.wf(),
                target@ == lowercase(text@),
                i <= self.rows@.len(),
                forall|j: int|
                    0 <= j < i ==> !(except != Some(#[trigger] self.rows@[j].key()) && lowercase(
                        self.rows@[j].sort_key(),
                    ) == lowercase(text@)),
            decreases self.rows@.len() - i,
        {
            let row = &self.rows[i];
            let other = row.id();
            let skip = match except {
                Some(e) => e == other,
                None => false,
            };
            if !skip {
                let folded = to_lowercase(row.sort_text());
                if str_eq(folded.as_str(), target.as_str()) {
                    proof {
                        lemma_rows_map_at(self.rows@, i as int);
                        assert(self@[other] == self.rows@[i as int]);
                    }
                    return true;
                }
            }
            i += 1;
        }
        proof {
            if folded_taken(self@, text@, except) {
                let k = choose|k: u128|
                    #![trigger self@[k]]
                    self@.contains_key(k) && except != Some(k) && lowercase(self@[k].sort_key())
                        == lowercase(text@);
                let j = lemma_rows_map_key(self.rows@, k);
                assert(self.rows@[j].key() == k);
            }
        }
        false
    }

    /// The row whose sort text lowercases to the same text as `text` does,
    /// if any (the first in storage order).
    pub fn find_folded(&self, text: &str) -> (r: Option<&R>)
        requires
            self.wf(),
        ensures
            match r {
                Some(row) => self@.contains_key(row.key()) && self@[row.key()] == *row && lowercase(
                    row.sort_key(),
                ) == lowercase(text@),
                None => !folded_taken(self@, text@, None),
            },
    {
        let target = to_lowercase(text);
        let mut i: usize = 0;
        while i < self.rows.len()
            invariant
                self.wf(),
                target@ == lowercase(text@),
                i <= self.rows@.len(),
                forall|j: int|
                    0 <= j < i ==> lowercase(#[trigger] self.rows@[j].sort_key()) != lowercase(
                        text@,
                    ),
            decreases self.rows@.len() - i,
        {
            let row = &self.rows[i];
            let folded = to_lowercase(row.sort_text());
            if str_eq(folded.as_str(), target.as_str()) {
                proof {
                    lemma_rows_map_at(self.rows@, i as int);
                }
                return Some(row);
            }
            i += 1;
        }
        proof {
            if folded_taken(self@, text@, None) {
                let k = choose|k: u128|
                    #![trigger self@[k]]
                    self@.contains_key(k) && None::<u128> != Some(k) && lowercase(
                        self@[k].sort_key(),
                    ) == lowercase(text@);
                let j = lemma_rows_map_key(self.rows@, k);
                assert(lowercase(self.rows@[j].sort_key()) == lowercase(text@));
            }
        }
        None
    }

    /// Copies of all rows, ordered by their sort text.
    pub fn sorted(&self) -> (r: Vec<R>)
        requires
            self.wf(),
        ensures
            lists_map_sorted(r@, self@),
    {
        let n = self.rows.len();
        let mut out: Vec<R> = Vec::new();
        let mut i: usize = 0;
        assert(self.rows@.take(0) =~= out@);
        while i < n
            invariant
                n == self.rows@.len(),
                i <= n,
                sorted_by_text(out@),
                out@.to_multiset() == self.rows@.take(i as int).to_multiset(),
            decreases n - i,
        {
            let row = self.rows[i].duplicate();
            let key = chars_of(row.sort_text());
            let mut p: usize = 0;
            while p < out.len() && lex_le_exec(&chars_of(out[p].sort_text()), &key)
                invariant
                    p <= out@.len(),
                    key@ == row.sort_key(),
                    forall|q: int| 0 <= q < p ==> lex_le(#[trigger] out@[q].sort_key(), row.sort_key()),
                decreases out@.len() - p,
            {
                p += 1;
            }
            let ghost before = out@;
            proof {
                if p < before.len() {
                    lemma_lex_le_total(before[p as int].sort_key(), row.sort_key());
                }
            }
            out.insert(p, row);
            proof {
                let after = out@;
                assert forall|a: int, b: int| 0 <= a < b < after.len() implies lex_le(
                    #[trigger] after[a].sort_key(),
                    #[trigger] after[b].sort_key(),
                ) by {
                    if b < p {
                        assert(after[a] == before[a] && after[b] == before[b]);
                    } else if b == p {
                        assert(after[a] == before[a]);
                    } else if a > p {
                        assert(after[a] == before[a - 1] && after[b] == before[b - 1]);
                    } else if a == p {
                        assert(after[b] == before[b - 1]);
                        if b - 1 > p {
                            assert(lex_le(before[p as int].sort_key(), before[b - 1].sort_key()));
                            lemma_lex_le_transitive(
                                row.sort_key(),
                                before[p as int].sort_key(),
                                before[b - 1].sort_key(),
                            );
                        }
                    } else {
                        assert(after[a] == before[a] && after[b] == before[b - 1]);
                    }
                }
                to_multiset_insert(before, p as int, row);
                assert(self.rows@.take(i + 1) == self.rows@.take(i as int).push(self.rows@[i as int]));
                to_multiset_build(self.rows@.take(i as int), self.rows@[i as int]);
            }
            i += 1;
        }
        proof {
            let rows = self.rows@;
            assert(rows.take(n as int) == rows);
            lemma_keys_unique_no_duplicates(rows);
            rows.lemma_multiset_has_no_duplicates();
            out@.lemma_multiset_has_no_duplicates_conv();
            assert forall|x: R| out@.contains(x) == rows.contains(x) by {
                to_multiset_contains(out@, x);
                to_multiset_contains(rows, x);
            }
            assert forall|a: int| 0 <= a < out@.len() implies self@.contains_key(
                #[trigger] out@[a].key(),
            ) && self@[out@[a].key()] == out@[a] by {
                assert(out@.contains(out@[a]));
                assert(rows.contains(out@[a]));
                let m = choose|m: int| 0 <= m < rows.len() && rows[m] == out@[a];
                lemma_rows_map_at(rows, m);
            }
            assert(keys_unique(out@)) by {
                assert forall|a: int, b: int|
                    0 <= a < out@.len() && 0 <= b < out@.len() && a != b implies #[trigger] out@[a].key()
                    != #[trigger] out@[b].key() by {
                    if out@[a].key() == out@[b].key() {
                        assert(self@[out@[a].key()] == out@[a]);
                        assert(self@[out@[b].key()] == out@[b]);
                    }
                }
            }
            assert forall|k: u128| #[trigger] self@.contains_key(k) implies exists|a: int|
                0 <= a < out@.len() && #[trigger] out@[a] == self@[k] by {
                let m = lemma_rows_map_key(rows, k);
                assert(rows.contains(rows[m]));
                assert(out@.contains(rows[m]));
            }
        }
        out
    }
}

} // verus!
