use vstd::prelude::*;

verus! {

/// Keys whose equality is decided by `same`.
pub trait Key: Sized + Copy {
    /// Whether the two keys are equal.
    fn same(&self, other: &Self) -> (r: bool)
        ensures
            r == (*self == *other),
    ;
}

impl Key for u64 {
    fn same(&self, other: &Self) -> (r: bool) {
        *self == *other
    }
}

/// A map from keys to values, kept as a list of entries with distinct
/// keys.
pub struct Table<K, V> {
    entries: Vec<(K, V)>,
}

impl<K: Key, V> Table<K, V> {
    /// No key occurs in two entries.
    pub closed spec fn wf(&self) -> bool {
        forall|i: int, j: int|
            0 <= i < j < self.entries@.len() ==> #[trigger] self.entries@[i].0
                != #[trigger] self.entries@[j].0
    }

    /// The map the entries describe.
    pub closed spec fn view(&self) -> Map<K, V> {
        Map::new(
            |k: K| exists|i: int| 0 <= i < self.entries@.len() && self.entries@[i].0 == k,
            |k: K|
                self.entries@[choose|i: int| 0 <= i < self.entries@.len() && self.entries@[i].0 == k].1,
        )
    }

    proof fn lemma_view_at(&self, i: int)
        requires
            self.wf(),
            0 <= i < self.entries@.len(),
        ensures
            self.view().contains_key(self.entries@[i].0),
            self.view()[self.entries@[i].0] == self.entries@[i].1,
    {
        let k = self.entries@[i].0;
        assert(self.view().dom().contains(k));
        let c = choose|j: int| 0 <= j < self.entries@.len() && self.entries@[j].0 == k;
        if c != i {
            if c < i {
                assert(self.entries@[c].0 != self.entries@[i].0);
            } else {
                assert(self.entries@[i].0 != self.entries@[c].0);
            }
        }
    }

    /// The empty table.
    pub fn new() -> (t: Table<K, V>)
        ensures
            t.wf(),
            t.view() == Map::<K, V>::empty(),
    {
        let t = Table { entries: Vec::new() };
        assert(t.view() =~= Map::<K, V>::empty());
        t
    }

    /// The number of entries.
    pub fn len(&self) -> (n: usize)
        requires
            self.wf(),
        ensures
            n == self.view().len(),
    {
        proof {
            self.lemma_len();
        }
        self.entries.len()
    }

    proof fn lemma_len(&self)
        requires
            self.wf(),
        ensures
            self.view().dom().finite(),
            self.view().len() == self.entries@.len(),
        decreases self.entries@.len(),
    {
        let ks = Seq::new(self.entries@.len(), |i: int| self.entries@[i].0);
        assert forall|i: int, j: int| 0 <= i < j < ks.len() implies ks[i] != ks[j] by {
            assert(self.entries@[i].0 != self.entries@[j].0);
        }
        assert(ks.no_duplicates());
        ks.unique_seq_to_set();
        assert(self.view().dom() =~= ks.to_set()) by {
            assert forall|k: K| self.view().dom().contains(k) implies ks.to_set().contains(k) by {
                let i = choose|i: int| 0 <= i < self.entries@.len() && self.entries@[i].0 == k;
                assert(ks[i] == k);
            }
            assert forall|k: K| ks.to_set().contains(k) implies self.view().dom().contains(k) by {
                let i = choose|i: int| 0 <= i < ks.len() && ks[i] == k;
                assert(self.entries@[i].0 == k);
            }
        }
    }

    fn find(&self, k: &K) -> (r: Option<usize>)
        requires
            self.wf(),
        ensures
            r matches Some(i) ==> i < self.entries@.len() && self.entries@[i as int].0 == *k,
            r is None ==> !self.view().contains_key(*k),
    {
        let mut i: usize = 0;
        while i < self.entries.len()
            invariant
                i <= self.entries@.len(),
                forall|j: int| 0 <= j < i ==> self.entries@[j].0 != *k,
            decreases self.entries@.len() - i,
        {
            if self.entries[i].0.same(k) {
                return Some(i);
            }
            i = i + 1;
        }
        proof {
            if self.view().contains_key(*k) {
                let j = choose|j: int| 0 <= j < self.entries@.len() && self.entries@[j].0 == *k;
                assert(self.entries@[j].0 != *k);
            }
        }
        None
    }

    /// Whether `k` has an entry.
    pub fn contains(&self, k: &K) -> (r: bool)
        requires
            self.wf(),
        ensures
            r == self.view().contains_key(*k),
    {
        match self.find(k) {
            Some(i) => {
                proof {
                    self.lemma_view_at(i as int);
                }
                true
            },
            None => false,
        }
    }

    /// Sets the value of `k` to `v`, replacing an earlier value.
    pub fn insert(&mut self, k: K, v: V)
        requires
            old(self).wf(),
        ensures
            final(self).wf(),
            final(self).view() == old(self).view().insert(k, v),
    {
        let ghost before = self.view();
        match self.find(&k) {
            Some(i) => {
                let ghost old_entries = self.entries@;
                let _ = self.entries.remove(i);
                self.entries.push((k, v));
                proof {
                    let e = self.entries@;
                    assert forall|a: int, b: int| 0 <= a < b < e.len() implies #[trigger] e[a].0
                        != #[trigger] e[b].0 by {
                        let oa = if a < i { a } else { a + 1 };
                        if b == e.len() - 1 {
                            assert(e[a].0 == old_entries[oa].0);
                            if oa < i {
                                assert(old_entries[oa].0 != old_entries[i as int].0);
                            } else {
                                assert(old_entries[i as int].0 != old_entries[oa].0);
                            }
                        } else {
                            let ob = if b < i { b } else { b + 1 };
                            assert(old_entries[oa].0 != old_entries[ob].0);
                        }
                    }
                    self.lemma_view_at(e.len() - 1);
                    assert forall|q: K| #![trigger self.view().dom().contains(q)]
                        self.view().dom().contains(q) == before.insert(k, v).dom().contains(q) by {
                        if q != k {
                            if self.view().dom().contains(q) {
                                let j = choose|j: int| 0 <= j < e.len() && e[j].0 == q;
                                let oj = if j < i { j } else { j + 1 };
                                assert(old_entries[oj].0 == q);
                            }
                            if before.dom().contains(q) {
                                let j = choose|j: int| 0 <= j < old_entries.len() && old_entries[j].0 == q;
                                assert(j != i);
                                let nj = if j < i { j } else { j - 1 };
                                assert(e[nj].0 == q);
                            }
                        }
                    }
                    assert forall|q: K| self.view().dom().contains(q) && q != k implies self.view()[q]
                        == before[q] by {
                        let j = choose|j: int| 0 <= j < e.len() && e[j].0 == q;
                        self.lemma_view_at(j);
                        let oj = if j < i { j } else { j + 1 };
                        assert(old_entries[oj] == e[j]);
                        assert(before.contains_key(q));
                        let c = choose|c: int| 0 <= c < old_entries.len() && old_entries[c].0 == q;
                        if c != oj {
                            if c < oj {
                                assert(old_entries[c].0 != old_entries[oj].0);
                            } else {
                                assert(old_entries[oj].0 != old_entries[c].0);
                            }
                        }
                    }
                    assert(self.view() =~= before.insert(k, v));
                }
            },
            None => {
                let ghost old_entries = self.entries@;
                self.entries.push((k, v));
                proof {
                    let e = self.entries@;
                    assert forall|a: int, b: int| 0 <= a < b < e.len() implies #[trigger] e[a].0
                        != #[trigger] e[b].0 by {
                        if b == e.len() - 1 {
                            if e[a].0 == k {
                                assert(before.contains_key(k));
                            }
                        } else {
                            assert(old_entries[a].0 != old_entries[b].0);
                        }
                    }
                    self.lemma_view_at(e.len() - 1);
                    assert forall|q: K| #![trigger self.view().dom().contains(q)]
                        self.view().dom().contains(q) == before.insert(k, v).dom().contains(q) by {
                        if q != k {
                            if self.view().dom().contains(q) {
                                let j = choose|j: int| 0 <= j < e.len() && e[j].0 == q;
                                assert(old_entries[j].0 == q);
                            }
                            if before.dom().contains(q) {
                                let j = choose|j: int| 0 <= j < old_entries.len() && old_entries[j].0 == q;
                                assert(e[j].0 == q);
                            }
                        }
                    }
                    assert forall|q: K| self.view().dom().contains(q) && q != k implies self.view()[q]
                        == before[q] by {
                        let j = choose|j: int| 0 <= j < e.len() && e[j].0 == q;
                        self.lemma_view_at(j);
                        assert(old_entries[j] == e[j]);
                        let c = choose|c: int| 0 <= c < old_entries.len() && old_entries[c].0 == q;
                        if c != j {
                            if c < j {
                                assert(old_entries[c].0 != old_entries[j].0);
                            } else {
                                assert(old_entries[j].0 != old_entries[c].0);
                            }
                        }
                    }
                    assert(self.view() =~= before.insert(k, v));
                }
            },
        }
    }

    /// Removes the entry of `k`, returning its value.
    pub fn remove(&mut self, k: &K) -> (r: Option<V>)
        requires
            old(self).wf(),
        ensures
            final(self).wf(),
            final(self).view() == old(self).view().remove(*k),
            old(self).view().contains_key(*k) ==> r == Some(old(self).view()[*k]),
            !old(self).view().contains_key(*k) ==> r is None,
    {
        let ghost before = self.view();
        match self.find(k) {
            Some(i) => {
                let ghost old_entries = self.entries@;
                proof {
                    self.lemma_view_at(i as int);
                }
                let (_, v) = self.entries.remove(i);
                proof {
                    let e = self.entries@;
                    assert forall|a: int, b: int| 0 <= a < b < e.len() implies #[trigger] e[a].0
                        != #[trigger] e[b].0 by {
                        let oa = if a < i { a } else { a + 1 };
                        let ob = if b < i { b } else { b + 1 };
                        assert(old_entries[oa].0 != old_entries[ob].0);
                    }
                    assert forall|q: K| #![trigger self.view().dom().contains(q)]
                        self.view().dom().contains(q) == before.remove(*k).dom().contains(q) by {
                        if self.view().dom().contains(q) {
                            let j = choose|j: int| 0 <= j < e.len() && e[j].0 == q;
                            let oj = if j < i { j } else { j + 1 };
                            assert(old_entries[oj].0 == q);
                            if q == *k {
                                if oj < i {
                                    assert(old_entries[oj].0 != old_entries[i as int].0);
                                } else {
                                    assert(old_entries[i as int].0 != old_entries[oj].0);
                                }
                            }
                        }
                        if before.dom().contains(q) && q != *k {
                            let j = choose|j: int| 0 <= j < old_entries.len() && old_entries[j].0 == q;
                            let nj = if j < i { j } else { j - 1 };
                            assert(e[nj].0 == q);
                        }
                    }
                    assert forall|q: K| self.view().dom().contains(q) implies self.view()[q]
                        == before.remove(*k)[q] by {
                        let j = choose|j: int| 0 <= j < e.len() && e[j].0 == q;
                        self.lemma_view_at(j);
                        let oj = if j < i { j } else { j + 1 };
                        assert(old_entries[oj] == e[j]);
                        let c = choose|c: int| 0 <= c < old_entries.len() && old_entries[c].0 == q;
                        if c != oj {
                            if c < oj {
                                assert(old_entries[c].0 != old_entries[oj].0);
                            } else {
                                assert(old_entries[oj].0 != old_entries[c].0);
                            }
                        }
                    }
                    assert(self.view() =~= before.remove(*k));
                }
                Some(v)
            },
            None => {
                assert(before.remove(*k) =~= before);
                None
            },
        }
    }
}

} // verus!
