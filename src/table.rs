//! A small table from producer to a per-producer sequence position.

use vstd::prelude::*;

verus! {

/// One past the largest sequence number a producer can use.
pub const SEQUENCE_LIMIT: u64 = 0x1_0000_0000;

/// The position recorded for one producer.
#[derive(Debug, Clone, Copy)]
pub struct ProducerCounter {
    pub producer_id: u32,
    pub next: u64,
}

/// Maps each producer to a position in `0..=SEQUENCE_LIMIT`; a producer that
/// was never set is at 0.
pub struct SequenceTable {
    counters: Vec<ProducerCounter>,
}

impl SequenceTable {
    /// At most one counter per producer, each within the sequence range.
    pub closed spec fn wf(&self) -> bool {
        &&& forall|i: int, j: int|
            0 <= i < j < self.counters@.len() ==> self.counters@[i].producer_id
                != self.counters@[j].producer_id
        &&& forall|i: int| 0 <= i < self.counters@.len() ==> self.counters@[i].next <= SEQUENCE_LIMIT
    }

    pub closed spec fn has_counter(&self, producer_id: u32) -> bool {
        exists|i: int| 0 <= i < self.counters@.len() && self.counters@[i].producer_id == producer_id
    }

    /// The position recorded for `producer_id`.
    pub closed spec fn value(&self, producer_id: u32) -> nat {
        if self.has_counter(producer_id) {
            let i = choose|i: int|
                0 <= i < self.counters@.len() && self.counters@[i].producer_id == producer_id;
            self.counters@[i].next as nat
        } else {
            0
        }
    }

    pub proof fn lemma_bounded(&self, producer_id: u32)
        requires
            self.wf(),
        ensures
            self.value(producer_id) <= SEQUENCE_LIMIT,
    {
    }

    pub fn new() -> (t: Self)
        ensures
            t.wf(),
            forall|p: u32| t.value(p) == 0,
    {
        SequenceTable { counters: Vec::new() }
    }

    fn find(&self, producer_id: u32) -> (r: Option<usize>)
        requires
            self.wf(),
        ensures
            match r {
                Some(i) => i < self.counters@.len() && self.counters@[i as int].producer_id
                    == producer_id && self.has_counter(producer_id) && self.value(producer_id)
                    == self.counters@[i as int].next,
                None => !self.has_counter(producer_id),
            },
    {
        let mut i: usize = 0;
        while i < self.counters.len()
            invariant
                self.wf(),
                i <= self.counters@.len(),
                forall|k: int| 0 <= k < i ==> self.counters@[k].producer_id != producer_id,
            decreases self.counters@.len() - i,
        {
            if self.counters[i].producer_id == producer_id {
                proof {
                    assert(self.has_counter(producer_id));
                    let c = choose|c: int|
                        0 <= c < self.counters@.len() && self.counters@[c].producer_id
                            == producer_id;
                    if c < i as int {
                        assert(self.counters@[c].producer_id != producer_id);
                    } else if c > i as int {
                        assert(self.counters@[i as int].producer_id
                            != self.counters@[c].producer_id);
                    }
                    assert(c == i as int);
                }
                return Some(i);
            }
            i += 1;
        }
        None
    }

    /// The position recorded for `producer_id`.
    pub fn get(&self, producer_id: u32) -> (r: u64)
        requires
            self.wf(),
        ensures
            r == self.value(producer_id),
    {
        match self.find(producer_id) {
            Some(i) => self.counters[i].next,
            None => 0,
        }
    }

    /// Records `next` for `producer_id`, leaving the other producers as they were.
    pub fn set(&mut self, producer_id: u32, next: u64)
        requires
            old(self).wf(),
            next <= SEQUENCE_LIMIT,
        ensures
            final(self).wf(),
            final(self).value(producer_id) == next,
            forall|p: u32| p != producer_id ==> final(self).value(p) == old(self).value(p),
    {
        let ghost pre = *self;
        let c = ProducerCounter { producer_id, next };
        match self.find(producer_id) {
            Some(i) => {
                self.counters.set(i, c);
                proof {
                    assert(self.counters@[i as int].producer_id == producer_id);
                    assert(self.has_counter(producer_id));
                    let k = choose|k: int|
                        0 <= k < self.counters@.len() && self.counters@[k].producer_id
                            == producer_id;
                    if k != i as int {
                        assert(pre.counters@[k].producer_id == producer_id);
                        if k < i as int {
                            assert(pre.counters@[k].producer_id != pre.counters@[i as int].producer_id);
                        } else {
                            assert(pre.counters@[i as int].producer_id != pre.counters@[k].producer_id);
                        }
                    }
                }
            },
            None => {
                self.counters.push(c);
                proof {
                    let n = pre.counters@.len() as int;
                    assert(self.counters@[n].producer_id == producer_id);
                    assert(self.has_counter(producer_id));
                    let k = choose|k: int|
                        0 <= k < self.counters@.len() && self.counters@[k].producer_id
                            == producer_id;
                    if k < n {
                        assert(pre.counters@[k].producer_id == producer_id);
                        assert(pre.has_counter(producer_id));
                    }
                }
            },
        }
        proof {
            assert forall|p: u32| p != producer_id implies self.value(p) == pre.value(p) by {
                if pre.has_counter(p) {
                    let k = choose|k: int|
                        0 <= k < pre.counters@.len() && pre.counters@[k].producer_id == p;
                    assert(self.counters@[k].producer_id == p);
                    assert(self.has_counter(p));
                    let j = choose|j: int|
                        0 <= j < self.counters@.len() && self.counters@[j].producer_id == p;
                    if j != k {
                        if j < pre.counters@.len() {
                            assert(pre.counters@[j].producer_id == p);
                            if j < k {
                                assert(pre.counters@[j].producer_id != pre.counters@[k].producer_id);
                            } else {
                                assert(pre.counters@[k].producer_id != pre.counters@[j].producer_id);
                            }
                        }
                    }
                } else {
                    if self.has_counter(p) {
                        let k = choose|k: int|
                            0 <= k < self.counters@.len() && self.counters@[k].producer_id == p;
                        if k < pre.counters@.len() {
                            assert(pre.counters@[k].producer_id == p);
                        }
                    }
                }
            }
        }
    }
}

} // verus!
