//! Expiration records, earliest first.

use vstd::multiset::Multiset;
use vstd::prelude::*;

verus! {

/// `(expiration time in milliseconds, lease id)`.
pub type ExpireRecord = (u64, u64);

/// The record comes no later than the other: by time, then by lease id.
pub open spec fn no_later(a: ExpireRecord, b: ExpireRecord) -> bool {
    a.0 < b.0 || (a.0 == b.0 && a.1 <= b.1)
}

/// A priority queue of expiration records. A record may occur more than once.
pub struct ExpireHeap {
    /// Latest first, so that the earliest record is at the end.
    records: Vec<ExpireRecord>,
}

impl View for ExpireHeap {
    type V = Multiset<ExpireRecord>;

    closed spec fn view(&self) -> Multiset<ExpireRecord> {
        self.records@.to_multiset()
    }
}

impl ExpireHeap {
    /// The records are in order.
    pub closed spec fn wf(self) -> bool {
        forall|i: int, j: int|
            0 <= i <= j < self.records@.len() ==> no_later(
                #[trigger] self.records@[j],
                #[trigger] self.records@[i],
            )
    }

    /// `record` is in the queue and no record is earlier.
    pub open spec fn earliest(self, record: ExpireRecord) -> bool {
        &&& self@.contains(record)
        &&& forall|other: ExpireRecord| #[trigger]
            self@.contains(other) ==> no_later(record, other)
    }

    pub fn new() -> (heap: Self)
        ensures
            heap.wf(),
            heap@ == Multiset::<ExpireRecord>::empty(),
    {
        let heap = ExpireHeap { records: Vec::new() };
        proof {
            heap.lemma_empty();
        }
        heap
    }

    proof fn lemma_last_is_earliest(self)
        requires
            self.wf(),
            self.records@.len() > 0,
        ensures
            self.earliest(self.records@.last()),
    {
        let records = self.records@;
        records.to_multiset_ensures();
        assert(records.contains(records.last()));
        assert forall|other: ExpireRecord| #[trigger] self@.contains(other) implies no_later(
            records.last(),
            other,
        ) by {
            assert(records.contains(other));
            let i = choose|i: int| 0 <= i < records.len() && records[i] == other;
            assert(no_later(records[records.len() - 1], records[i]));
        }
    }

    proof fn lemma_empty(self)
        requires
            self.records@.len() == 0,
        ensures
            self@ == Multiset::<ExpireRecord>::empty(),
    {
        broadcast use vstd::multiset::group_multiset_axioms;

        self.records@.to_multiset_ensures();
        assert(self@ =~= Multiset::empty());
    }

    /// The earliest record.
    pub fn peek(&self) -> (record: Option<ExpireRecord>)
        requires
            self.wf(),
        ensures
            match record {
                Some(record) => self.earliest(record),
                None => self@ == Multiset::<ExpireRecord>::empty(),
            },
    {
        let len: usize = self.records.len();
        if len == 0 {
            proof {
                self.lemma_empty();
            }
            None
        } else {
            proof {
                self.lemma_last_is_earliest();
            }
            Some(self.records[len - 1])
        }
    }

    /// Adds a record.
    pub fn push(&mut self, record: ExpireRecord)
        requires
            old(self).wf(),
        ensures
            final(self).wf(),
            final(self)@ == old(self)@.insert(record),
    {
        let ghost before = self.records@;
        let mut at: usize = self.records.len();
        while at > 0 && (self.records[at - 1].0 < record.0 || (self.records[at - 1].0 == record.0
            && self.records[at - 1].1 < record.1))
            invariant
                self.records@ == before,
                before == old(self).records@,
                old(self).wf(),
                at <= before.len(),
                forall|i: int| at <= i < before.len() ==> no_later(#[trigger] before[i], record),
            decreases at,
        {
            at = at - 1;
        }
        self.records.insert(at, record);
        proof {
            assert(self.records@ =~= before.insert(at as int, record));
            vstd::seq_lib::to_multiset_insert(before, at as int, record);
            assert forall|i: int, j: int| 0 <= i <= j < self.records@.len() implies no_later(
                #[trigger] self.records@[j],
                #[trigger] self.records@[i],
            ) by {
                if i < at {
                    assert(self.records@[i] == before[i]);
                    if at > 0 {
                        assert(no_later(record, before[at - 1]));
                        assert(no_later(before[at - 1], before[i]));
                    }
                }
                if j > at {
                    assert(self.records@[j] == before[j - 1]);
                }
                if i > at {
                    assert(self.records@[i] == before[i - 1]);
                }
                if j < at {
                    assert(self.records@[j] == before[j]);
                }
            }
        }
    }

    /// Removes and returns the earliest record.
    pub fn pop(&mut self) -> (record: Option<ExpireRecord>)
        requires
            old(self).wf(),
        ensures
            final(self).wf(),
            match record {
                Some(record) => old(self).earliest(record) && final(self)@ == old(self)@.remove(
                    record,
                ),
                None => old(self)@ == Multiset::<ExpireRecord>::empty() && final(self)@ == old(
                    self,
                )@,
            },
    {
        let ghost before = self.records@;
        proof {
            if before.len() > 0 {
                self.lemma_last_is_earliest();
                before.to_multiset_ensures();
                assert(before.drop_last() =~= before.remove(before.len() - 1));
            } else {
                self.lemma_empty();
            }
        }
        let popped = self.records.pop();
        popped
    }
}

} // verus!
