use vstd::prelude::*;
use std::sync::Arc;
use crate::kentik::Target;
use crate::record::Record;

verus! {

/// Records are queued per company and device.
#[derive(Clone, Copy, Debug, PartialEq, Eq, Hash, Structural)]
pub struct Key {
    pub company: u64,
    pub device: u64,
}

impl Key {
    /// The key of the records for a target.
    pub fn of(target: &Target) -> (k: Key)
        ensures
            k.company == target.company,
            k.device == target.device.id,
    {
        Key { company: target.company, device: target.device.id }
    }
}

/// The records queued for one key, with where they go (`T` is what refers
/// to the target).
pub struct Output<T> {
    pub target: T,
    pub values: Vec<Record>,
}

/// How much is queued: the number of keys and of records.
#[derive(Clone, Copy, Debug, PartialEq, Eq, Structural)]
pub struct QueueStatus {
    pub length: usize,
    pub records: usize,
}

/// The number of records in a queue.
pub open spec fn total<T>(q: Seq<(Key, T, Seq<Record>)>) -> nat
    decreases q.len(),
{
    if q.len() == 0 {
        0
    } else {
        total(q.drop_last()) + q.last().2.len()
    }
}

/// Where `key` is in a queue, if anywhere.
pub open spec fn position<T>(q: Seq<(Key, T, Seq<Record>)>, key: Key) -> Option<int> {
    if exists|i: int| 0 <= i < q.len() && #[trigger] q[i].0 == key {
        Some(choose|i: int| 0 <= i < q.len() && #[trigger] q[i].0 == key)
    } else {
        None
    }
}

/// Records waiting to be exported, by key, each key once.
pub struct Queue<T> {
    entries: Vec<(Key, Output<T>)>,
}

impl<T> Queue<T> {
    /// The keys, each with its target and its records, in the order the
    /// keys were first seen.
    pub closed spec fn view(&self) -> Seq<(Key, T, Seq<Record>)> {
        Seq::new(
            self.entries@.len(),
            |i: int| (self.entries@[i].0, self.entries@[i].1.target, self.entries@[i].1.values@),
        )
    }

    /// No key occurs twice.
    pub closed spec fn wf(&self) -> bool {
        forall|i: int, j: int|
            0 <= i < j < self.entries@.len() ==> #[trigger] self.entries@[i].0 != #[trigger] self.entries@[j].0
    }

    /// An empty queue.
    pub fn new() -> (q: Queue<T>)
        ensures
            q.wf(),
            q@ == Seq::<(Key, T, Seq<Record>)>::empty(),
    {
        let q = Queue { entries: Vec::new() };
        assert(q@ =~= Seq::<(Key, T, Seq<Record>)>::empty());
        q
    }

    fn find(&self, key: Key) -> (r: Option<usize>)
        requires
            self.wf(),
        ensures
            match r {
                Some(i) => i < self@.len() && self@[i as int].0 == key,
                None => forall|i: int| 0 <= i < self@.len() ==> self@[i].0 != key,
            },
    {
        let mut i: usize = 0;
        while i < self.entries.len()
            invariant
                i <= self.entries@.len(),
                forall|j: int| 0 <= j < i ==> self.entries@[j].0 != key,
            decreases self.entries@.len() - i,
        {
            if self.entries[i].0 == key {
                return Some(i);
            }
            i = i + 1;
        }
        None
    }

    /// Queues a record under `key`. A key seen for the first time is added
    /// last, with `target`; else the record goes after those of its key,
    /// which keeps the target it was first queued with.
    pub fn export(&mut self, key: Key, target: T, record: Record)
        requires
            old(self).wf(),
        ensures
            final(self).wf(),
            match position(old(self)@, key) {
                Some(i) => final(self)@ == old(self)@.update(
                    i,
                    (key, old(self)@[i].1, old(self)@[i].2.push(record)),
                ),
                None => final(self)@ == old(self)@.push((key, target, seq![record])),
            },
            total(final(self)@) == total(old(self)@) + 1,
    {
        let ghost before = self@;
        let ghost ents = self.entries@;
        match self.find(key) {
            Some(i) => {
                proof {
                    assert(before[i as int].0 == key);
                    let p = choose|j: int| 0 <= j < before.len() && #[trigger] before[j].0 == key;
                    if p != i as int {
                        if p < i as int {
                            assert(self.entries@[p].0 != self.entries@[i as int].0);
                        } else {
                            assert(self.entries@[i as int].0 != self.entries@[p].0);
                        }
                    }
                }
                let (k, mut out) = self.entries.remove(i);
                out.values.push(record);
                self.entries.insert(i, (k, out));
                assert(forall|j: int| 0 <= j < ents.len() ==> #[trigger] self.entries@[j].0 == ents[j].0);
                assert(self@ =~= before.update(i as int, (key, before[i as int].1, before[i as int].2.push(record))));
                proof {
                    lemma_total_update(before, i as int, record);
                }
            },
            None => {
                assert forall|j: int| 0 <= j < ents.len() implies #[trigger] ents[j].0 != key by {
                    assert(before[j].0 == ents[j].0);
                    assert(before[j].0 != key);
                }
                let mut values: Vec<Record> = Vec::new();
                values.push(record);
                self.entries.push((key, Output { target, values }));
                assert(self@ =~= before.push((key, target, seq![record])));
                assert(self@.drop_last() =~= before);
            },
        }
    }

    /// The number of keys and of records queued (the count of records stops
    /// at the largest `usize`).
    pub fn report(&self) -> (r: QueueStatus)
        ensures
            r.length == self@.len(),
            r.records == (if total(self@) <= usize::MAX {
                total(self@)
            } else {
                usize::MAX as nat
            }),
    {
        let mut records: usize = 0;
        let mut i: usize = 0;
        while i < self.entries.len()
            invariant
                i <= self.entries@.len(),
                records == (if total(self@.subrange(0, i as int)) <= usize::MAX {
                    total(self@.subrange(0, i as int))
                } else {
                    usize::MAX as nat
                }),
            decreases self.entries@.len() - i,
        {
            proof {
                assert(self@.subrange(0, i + 1).drop_last() =~= self@.subrange(0, i as int));
            }
            records = records.saturating_add(self.entries[i].1.values.len());
            i = i + 1;
        }
        assert(self@.subrange(0, self@.len() as int) =~= self@);
        QueueStatus { length: self.entries.len(), records }
    }

    /// Takes everything queued, leaving the queue empty.
    pub fn drain(&mut self) -> (r: Vec<(Key, Output<T>)>)
        ensures
            final(self).wf(),
            final(self)@ == Seq::<(Key, T, Seq<Record>)>::empty(),
            r@.len() == old(self)@.len(),
            forall|i: int|
                0 <= i < r@.len() ==> (#[trigger] r@[i]).0 == old(self)@[i].0 && r@[i].1.target == old(
                    self,
                )@[i].1 && r@[i].1.values@ == old(self)@[i].2,
    {
        let mut taken: Vec<(Key, Output<T>)> = Vec::new();
        std::mem::swap(&mut taken, &mut self.entries);
        assert(self@ =~= Seq::<(Key, T, Seq<Record>)>::empty());
        taken
    }
}

proof fn lemma_total_update<T>(q: Seq<(Key, T, Seq<Record>)>, i: int, r: Record)
    requires
        0 <= i < q.len(),
    ensures
        total(q.update(i, (q[i].0, q[i].1, q[i].2.push(r)))) == total(q) + 1,
    decreases q.len(),
{
    let u = q.update(i, (q[i].0, q[i].1, q[i].2.push(r)));
    if i == q.len() - 1 {
        assert(u.drop_last() =~= q.drop_last());
    } else {
        lemma_total_update(q.drop_last(), i, r);
        assert(u.drop_last() =~= q.drop_last().update(i, (q[i].0, q[i].1, q[i].2.push(r))));
    }
}

impl Queue<Arc<Target>> {
    /// Queues a record produced for `target`, under the target's company
    /// and device.
    pub fn export_for(&mut self, target: Arc<Target>, record: Record)
        requires
            old(self).wf(),
        ensures
            final(self).wf(),
            ({
                let key = Key { company: target.company, device: target.device.id };
                match position(old(self)@, key) {
                    Some(i) => final(self)@ == old(self)@.update(
                        i,
                        (key, old(self)@[i].1, old(self)@[i].2.push(record)),
                    ),
                    None => final(self)@ == old(self)@.push((key, target, seq![record])),
                }
            }),
            total(final(self)@) == total(old(self)@) + 1,
    {
        let key = Key::of(&*target);
        self.export(key, target, record);
    }
}

} // verus!
