//! An owned keyed store: one row per key, with primary-key uniqueness
//! enforced by the store itself. It stands for one table of the host
//! database, keyed by observer identity, and exposes only insert, find,
//! update and delete, plus indexed access for full-table passes.

use vstd::prelude::*;

verus! {

/// A table of rows of type `T`, each owned by a `u64` key. Rows keep
/// insertion order; no two rows share a key. The view of a table is the
/// `Map` from key to row.
pub struct KeyedTable<T> {
    rows: Vec<(u64, T)>,
}

impl<T> View for KeyedTable<T> {
    type V = Map<u64, T>;

    closed spec fn view(&self) -> Map<u64, T> {
        Map::new(
            |k: u64| self.spec_contains(k),
            |k: u64| self.rows@[self.spec_index_of(k)].1,
        )
    }
}

impl<T> KeyedTable<T> {
    /// The rows in insertion order, each beside its key.
    pub closed spec fn rows_seq(self) -> Seq<(u64, T)> {
        self.rows@
    }

    /// Primary-key uniqueness: no two rows share a key.
    pub open spec fn wf(self) -> bool {
        forall|i: int, j: int|
            0 <= i < j < self.rows_seq().len() ==> (#[trigger] self.rows_seq()[i]).0 != (
            #[trigger] self.rows_seq()[j]).0
    }

    pub closed spec fn spec_contains(self, k: u64) -> bool {
        exists|i: int| 0 <= i < self.rows@.len() && (#[trigger] self.rows@[i]).0 == k
    }

    closed spec fn spec_index_of(self, k: u64) -> int {
        choose|i: int| 0 <= i < self.rows@.len() && (#[trigger] self.rows@[i]).0 == k
    }

    proof fn lemma_index_of(self, k: u64)
        requires
            self.spec_contains(k),
        ensures
            0 <= self.spec_index_of(k) < self.rows@.len(),
            self.rows@[self.spec_index_of(k)].0 == k,
    {
    }

    proof fn lemma_index_unique(self, k: u64, i: int)
        requires
            self.wf(),
            0 <= i < self.rows@.len(),
            self.rows@[i].0 == k,
        ensures
            self.spec_contains(k),
            self.spec_index_of(k) == i,
            self@.contains_key(k),
            self@[k] == self.rows@[i].1,
    {
        assert(self.spec_contains(k));
        self.lemma_index_of(k);
        let j = self.spec_index_of(k);
        if j < i {
            assert((self.rows_seq()[j]).0 != (self.rows_seq()[i]).0);
            assert(false);
        } else if i < j {
            assert((self.rows_seq()[i]).0 != (self.rows_seq()[j]).0);
            assert(false);
        }
    }

    /// Every row of a well-formed table is the view's entry for its key, and
    /// every view entry stands in some row.
    pub proof fn lemma_view_rows(self)
        requires
            self.wf(),
        ensures
            forall|i: int|
                0 <= i < self.rows_seq().len() ==> self@.contains_key(
                    (#[trigger] self.rows_seq()[i]).0,
                ) && self@[self.rows_seq()[i].0] == self.rows_seq()[i].1,
            forall|k: u64| #[trigger]
                self@.contains_key(k) ==> exists|i: int|
                    0 <= i < self.rows_seq().len() && #[trigger] self.rows_seq()[i] == (k, self@[k]),
    {
        assert forall|i: int|
            0 <= i < self.rows_seq().len() implies self@.contains_key(
            (#[trigger] self.rows_seq()[i]).0,
        ) && self@[self.rows_seq()[i].0] == self.rows_seq()[i].1 by {
            self.lemma_index_unique(self.rows@[i].0, i);
        }
        assert forall|k: u64| #[trigger] self@.contains_key(k) implies exists|i: int|
            0 <= i < self.rows_seq().len() && #[trigger] self.rows_seq()[i] == (k, self@[k]) by {
            self.lemma_index_of(k);
            let i = self.spec_index_of(k);
            assert(self.rows_seq()[i] == (k, self@[k]));
        }
    }

    /// An empty table.
    pub fn new() -> (r: Self)
        ensures
            r.wf(),
            r@ == Map::<u64, T>::empty(),
            r.rows_seq() == Seq::<(u64, T)>::empty(),
    {
        let r = KeyedTable { rows: Vec::new() };
        proof {
            assert(r@ =~= Map::<u64, T>::empty());
            assert(r.rows_seq() =~= Seq::<(u64, T)>::empty());
        }
        r
    }

    /// How many rows the table holds.
    pub fn len(&self) -> (n: usize)
        ensures
            n == self.rows_seq().len(),
    {
        self.rows.len()
    }

    /// The row at a position of the insertion order, with its key.
    pub fn row_at(&self, i: usize) -> (r: &(u64, T))
        requires
            self.wf(),
            i < self.rows_seq().len(),
        ensures
            *r == self.rows_seq()[i as int],
            self@.contains_key(r.0),
            self@[r.0] == r.1,
    {
        proof {
            self.lemma_index_unique(self.rows@[i as int].0, i as int);
        }
        &self.rows[i]
    }

    /// Whether a row owns the key.
    pub fn contains(&self, k: u64) -> (r: bool)
        requires
            self.wf(),
        ensures
            r == self@.contains_key(k),
    {
        let n = self.rows.len();
        let mut i: usize = 0;
        while i < n
            invariant
                n == self.rows@.len(),
                i <= n,
                self.wf(),
                forall|j: int| 0 <= j < i ==> (#[trigger] self.rows@[j]).0 != k,
            decreases n - i,
        {
            if self.rows[i].0 == k {
                proof {
                    self.lemma_index_unique(k, i as int);
                }
                return true;
            }
            i += 1;
        }
        proof {
            assert(!self.spec_contains(k));
        }
        false
    }

    /// The row owned by the key, if any.
    pub fn find(&self, k: u64) -> (r: Option<&T>)
        requires
            self.wf(),
        ensures
            match r {
                Some(v) => self@.contains_key(k) && self@[k] == *v,
                None => !self@.contains_key(k),
            },
    {
        let n = self.rows.len();
        let mut i: usize = 0;
        while i < n
            invariant
                n == self.rows@.len(),
                i <= n,
                self.wf(),
                forall|j: int| 0 <= j < i ==> (#[trigger] self.rows@[j]).0 != k,
            decreases n - i,
        {
            if self.rows[i].0 == k {
                proof {
                    self.lemma_index_unique(k, i as int);
                }
                return Some(&self.rows[i].1);
            }
            i += 1;
        }
        proof {
            assert(!self.spec_contains(k));
        }
        None
    }

    /// Adds a row for a key no row owns yet; refuses a duplicate key and
    /// leaves the table unchanged in that case.
    pub fn insert(&mut self, k: u64, v: T) -> (r: bool)
        requires
            old(self).wf(),
        ensures
            final(self).wf(),
            r == !old(self)@.contains_key(k),
            r ==> final(self)@ == old(self)@.insert(k, v),
            r ==> final(self).rows_seq() == old(self).rows_seq().push((k, v)),
            !r ==> *final(self) == *old(self),
    {
        if self.contains(k) {
            return false;
        }
        let ghost oldt = *self;
        let ghost n = self.rows@.len() as int;
        self.rows.push((k, v));
        proof {
            assert(!oldt.spec_contains(k));
            assert(self.rows@ =~= oldt.rows@.push((k, v)));
            assert forall|i: int, j: int| 0 <= i < j < self.rows_seq().len() implies (
            #[trigger] self.rows_seq()[i]).0 != (#[trigger] self.rows_seq()[j]).0 by {
                if j < n {
                    assert(self.rows_seq()[i] == oldt.rows_seq()[i]);
                    assert(self.rows_seq()[j] == oldt.rows_seq()[j]);
                    assert((oldt.rows_seq()[i]).0 != (oldt.rows_seq()[j]).0);
                } else {
                    assert(self.rows_seq()[j].0 == k);
                    assert(self.rows_seq()[i] == oldt.rows_seq()[i]);
                    if oldt.rows_seq()[i].0 == k {
                        assert(oldt.spec_contains(k));
                        assert(false);
                    }
                }
            }
            self.lemma_insert_view(oldt, k, v);
        }
        true
    }

    proof fn lemma_insert_view(self, oldt: Self, k: u64, v: T)
        requires
            oldt.wf(),
            self.wf(),
            !oldt.spec_contains(k),
            self.rows@ == oldt.rows@.push((k, v)),
        ensures
            self@ == oldt@.insert(k, v),
    {
        let n = oldt.rows@.len() as int;
        assert(self.rows@[n] == (k, v));
        assert forall|m: u64| #[trigger] self.spec_contains(m) implies m == k || oldt.spec_contains(
            m,
        ) by {
            let i = choose|i: int| 0 <= i < self.rows@.len() && (#[trigger] self.rows@[i]).0 == m;
            if i < n {
                assert(oldt.rows@[i].0 == m);
            }
        }
        assert forall|m: u64| oldt.spec_contains(m) implies self.spec_contains(m) by {
            let i = choose|i: int| 0 <= i < oldt.rows@.len() && (#[trigger] oldt.rows@[i]).0 == m;
            assert(self.rows@[i].0 == m);
        }
        self.lemma_index_unique(k, n);
        assert forall|m: u64| m != k && oldt.spec_contains(m) implies self@[m] == oldt@[m] by {
            oldt.lemma_index_of(m);
            let i = oldt.spec_index_of(m);
            assert(self.rows@[i].0 == m);
            self.lemma_index_unique(m, i);
        }
        assert(self@ =~= oldt@.insert(k, v));
    }

    /// Overwrites the row owned by the key; reports whether the key owned a
    /// row, and leaves the table unchanged when it did not. Neither the set
    /// of keys nor the row order changes.
    pub fn update(&mut self, k: u64, v: T) -> (r: bool)
        requires
            old(self).wf(),
        ensures
            final(self).wf(),
            r == old(self)@.contains_key(k),
            r ==> final(self)@ == old(self)@.insert(k, v),
            final(self).rows_seq().len() == old(self).rows_seq().len(),
            forall|j: int|
                0 <= j < old(self).rows_seq().len() ==> (#[trigger] final(self).rows_seq()[j]).0
                    == old(self).rows_seq()[j].0,
            forall|j: int|
                0 <= j < old(self).rows_seq().len() && old(self).rows_seq()[j].0 != k ==> (
                #[trigger] final(self).rows_seq()[j]) == old(self).rows_seq()[j],
            forall|j: int|
                0 <= j < old(self).rows_seq().len() && old(self).rows_seq()[j].0 == k ==> (
                #[trigger] final(self).rows_seq()[j]) == (k, v),
            !r ==> *final(self) == *old(self),
    {
        let n = self.rows.len();
        let mut i: usize = 0;
        while i < n
            invariant
                *self == *old(self),
                n == self.rows@.len(),
                i <= n,
                self.wf(),
                forall|j: int| 0 <= j < i ==> (#[trigger] self.rows@[j]).0 != k,
            decreases n - i,
        {
            if self.rows[i].0 == k {
                let ghost oldt = *self;
                proof {
                    oldt.lemma_index_unique(k, i as int);
                }
                self.rows.set(i, (k, v));
                proof {
                    assert(self.rows@ =~= oldt.rows@.update(i as int, (k, v)));
                    assert forall|a: int, b: int| 0 <= a < b < self.rows_seq().len() implies (
                    #[trigger] self.rows_seq()[a]).0 != (#[trigger] self.rows_seq()[b]).0 by {
                        assert(self.rows_seq()[a].0 == oldt.rows_seq()[a].0);
                        assert(self.rows_seq()[b].0 == oldt.rows_seq()[b].0);
                        assert((oldt.rows_seq()[a]).0 != (oldt.rows_seq()[b]).0);
                    }
                    self.lemma_update_view(oldt, k, v, i as int);
                }
                return true;
            }
            i += 1;
        }
        proof {
            assert(!self.spec_contains(k));
        }
        false
    }

    proof fn lemma_update_view(self, oldt: Self, k: u64, v: T, at: int)
        requires
            oldt.wf(),
            self.wf(),
            0 <= at < oldt.rows@.len(),
            oldt.rows@[at].0 == k,
            self.rows@ == oldt.rows@.update(at, (k, v)),
        ensures
            self@ == oldt@.insert(k, v),
    {
        assert forall|m: u64| #[trigger] self.spec_contains(m) implies oldt.spec_contains(m) by {
            let i = choose|i: int| 0 <= i < self.rows@.len() && (#[trigger] self.rows@[i]).0 == m;
            assert(oldt.rows@[i].0 == m);
        }
        assert forall|m: u64| #[trigger] oldt.spec_contains(m) implies self.spec_contains(m) by {
            let i = choose|i: int| 0 <= i < oldt.rows@.len() && (#[trigger] oldt.rows@[i]).0 == m;
            assert(self.rows@[i].0 == m);
        }
        self.lemma_index_unique(k, at);
        assert forall|m: u64| m != k && oldt.spec_contains(m) implies self@[m] == oldt@[m] by {
            oldt.lemma_index_of(m);
            let i = oldt.spec_index_of(m);
            assert(self.rows@[i].0 == m);
            self.lemma_index_unique(m, i);
        }
        assert(self@ =~= oldt@.insert(k, v));
    }

    /// Removes the row owned by the key; reports whether the key owned a
    /// row, and leaves the table unchanged when it did not.
    pub fn delete(&mut self, k: u64) -> (r: bool)
        requires
            old(self).wf(),
        ensures
            final(self).wf(),
            r == old(self)@.contains_key(k),
            r ==> final(self)@ == old(self)@.remove(k),
            r ==> final(self).rows_seq().len() == old(self).rows_seq().len() - 1,
            !r ==> *final(self) == *old(self),
    {
        let n = self.rows.len();
        let mut i: usize = 0;
        while i < n
            invariant
                *self == *old(self),
                n == self.rows@.len(),
                i <= n,
                self.wf(),
                forall|j: int| 0 <= j < i ==> (#[trigger] self.rows@[j]).0 != k,
            decreases n - i,
        {
            if self.rows[i].0 == k {
                let ghost oldt = *self;
                proof {
                    oldt.lemma_index_unique(k, i as int);
                }
                self.rows.remove(i);
                proof {
                    assert(self.rows@ =~= oldt.rows@.remove(i as int));
                    self.lemma_delete_view(oldt, k, i as int);
                }
                return true;
            }
            i += 1;
        }
        proof {
            assert(!self.spec_contains(k));
        }
        false
    }

    proof fn lemma_delete_view(self, oldt: Self, k: u64, at: int)
        requires
            oldt.wf(),
            0 <= at < oldt.rows@.len(),
            oldt.rows@[at].0 == k,
            self.rows@ == oldt.rows@.remove(at),
        ensures
            self.wf(),
            self@ == oldt@.remove(k),
    {
        let n = oldt.rows@.len() as int;
        assert(self.rows@.len() == n - 1);
        assert forall|j: int| 0 <= j < n - 1 implies #[trigger] self.rows@[j] == (if j < at {
            oldt.rows@[j]
        } else {
            oldt.rows@[j + 1]
        }) by {}
        assert forall|a: int, b: int| 0 <= a < b < self.rows_seq().len() implies (
        #[trigger] self.rows_seq()[a]).0 != (#[trigger] self.rows_seq()[b]).0 by {
            let a0 = if a < at { a } else { a + 1 };
            let b0 = if b < at { b } else { b + 1 };
            assert(self.rows_seq()[a] == oldt.rows_seq()[a0]);
            assert(self.rows_seq()[b] == oldt.rows_seq()[b0]);
            assert((oldt.rows_seq()[a0]).0 != (oldt.rows_seq()[b0]).0);
        }
        assert(!self.spec_contains(k)) by {
            if self.spec_contains(k) {
                let i = choose|i: int|
                    0 <= i < self.rows@.len() && (#[trigger] self.rows@[i]).0 == k;
                let i0 = if i < at { i } else { i + 1 };
                assert(oldt.rows@[i0].0 == k);
                assert(i0 != at);
            }
        }
        assert forall|m: u64| m != k implies self.spec_contains(m) == oldt.spec_contains(m) by {
            if self.spec_contains(m) {
                let i = choose|i: int|
                    0 <= i < self.rows@.len() && (#[trigger] self.rows@[i]).0 == m;
                let i0 = if i < at { i } else { i + 1 };
                assert(oldt.rows@[i0].0 == m);
            }
            if oldt.spec_contains(m) {
                let i0 = choose|i: int|
                    0 <= i < oldt.rows@.len() && (#[trigger] oldt.rows@[i]).0 == m;
                assert(i0 != at);
                let i = if i0 < at { i0 } else { i0 - 1 };
                assert(self.rows@[i].0 == m);
                assert(self.spec_contains(m));
            }
        }
        assert forall|m: u64| m != k && oldt.spec_contains(m) implies self@[m] == oldt@[m] by {
            oldt.lemma_index_of(m);
            let i0 = oldt.spec_index_of(m);
            assert(i0 != at);
            let i = if i0 < at { i0 } else { i0 - 1 };
            assert(self.rows@[i] == oldt.rows@[i0]);
            self.lemma_index_unique(m, i);
        }
        assert(self@ =~= oldt@.remove(k));
    }
}

} // verus!
