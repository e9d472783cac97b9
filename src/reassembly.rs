//! The receiving side: fragments are collected per frame, completed frames
//! are handed out in increasing sequence order per producer, and incomplete
//! frames are evicted by age or by table size.

use vstd::prelude::*;
use crate::config::BridgeConfig;
use crate::envelope::{FrameEnvelope, saturating_increment};
use crate::fragment::{Fragment, assemble};
use crate::table::{SequenceTable, SEQUENCE_LIMIT};

verus! {

/// The fragments received so far of one frame.
#[derive(Debug)]
pub struct PendingFrame {
    pub producer_id: u32,
    pub sequence_number: u32,
    pub fragment_count: u64,
    /// When the first fragment arrived, on the subscriber's clock.
    pub first_arrival: u64,
    /// One slot per fragment index, filled as fragments arrive.
    pub slots: Vec<Option<Vec<u8>>>,
}

/// The received parts of a frame, by fragment index.
pub open spec fn slots_map(slots: Seq<Option<Vec<u8>>>) -> Map<nat, Seq<u8>> {
    Map::new(
        |i: nat| i < slots.len() && slots[i as int] is Some,
        |i: nat| slots[i as int]->Some_0@,
    )
}

/// Every index below `n` has arrived.
pub open spec fn covers(parts: Map<nat, Seq<u8>>, n: nat) -> bool {
    forall|i: nat| i < n ==> #[trigger] parts.contains_key(i)
}

/// Appends `b` to `out`.
fn append_bytes(out: &mut Vec<u8>, b: &Vec<u8>)
    ensures
        final(out)@ == old(out)@ + b@,
{
    let ghost start = out@;
    let mut k: usize = 0;
    while k < b.len()
        invariant
            k <= b@.len(),
            out@ == start + b@.subrange(0, k as int),
        decreases b@.len() - k,
    {
        out.push(b[k]);
        proof {
            assert(b@.subrange(0, k + 1) =~= b@.subrange(0, k as int).push(b@[k as int]));
            assert(start + b@.subrange(0, k + 1) =~= (start + b@.subrange(0, k as int)).push(
                b@[k as int],
            ));
        }
        k += 1;
    }
    proof {
        assert(b@.subrange(0, b@.len() as int) =~= b@);
    }
}

/// The payload of a frame whose every slot is filled, in index order; `None`
/// while a slot is still empty.
pub fn assemble_slots(slots: &Vec<Option<Vec<u8>>>) -> (r: Option<Vec<u8>>)
    ensures
        r is Some <==> covers(slots_map(slots@), slots@.len()),
        r is Some ==> r->Some_0@ == assemble(slots_map(slots@), slots@.len()),
{
    let ghost parts = slots_map(slots@);
    let mut i: usize = 0;
    while i < slots.len()
        invariant
            i <= slots@.len(),
            parts == slots_map(slots@),
            forall|k: nat| k < i ==> #[trigger] parts.contains_key(k),
        decreases slots@.len() - i,
    {
        if slots[i].is_none() {
            proof {
                assert(!parts.contains_key(i as nat));
            }
            return None;
        }
        i += 1;
    }
    let mut out: Vec<u8> = Vec::new();
    let mut j: usize = 0;
    while j < slots.len()
        invariant
            j <= slots@.len(),
            parts == slots_map(slots@),
            covers(parts, slots@.len()),
            out@ == assemble(parts, j as nat),
        decreases slots@.len() - j,
    {
        match &slots[j] {
            Some(b) => {
                append_bytes(&mut out, b);
                proof {
                    assert(parts.contains_key(j as nat));
                    assert(parts[j as nat] == b@);
                }
            },
            None => {
                proof {
                    assert(parts.contains_key(j as nat));
                }
            },
        }
        j += 1;
    }
    Some(out)
}

/// `n` empty slots.
fn empty_slots(n: u64) -> (r: Vec<Option<Vec<u8>>>)
    requires
        n <= usize::MAX,
    ensures
        r@.len() == n,
        forall|i: int| 0 <= i < n ==> r@[i] is None,
{
    let mut r: Vec<Option<Vec<u8>>> = Vec::new();
    let mut k: u64 = 0;
    while k < n
        invariant
            k <= n,
            r@.len() == k,
            forall|i: int| 0 <= i < k ==> r@[i] is None,
        decreases n - k,
    {
        r.push(None);
        k += 1;
    }
    r
}

} // verus!

verus! {

/// The frame a pending entry collects: (producer, sequence number).
pub open spec fn key_of(e: PendingFrame) -> (u32, u32) {
    (e.producer_id, e.sequence_number)
}

/// The frame a fragment belongs to: (producer, sequence number).
pub open spec fn fragment_key(f: Fragment) -> (u32, u32) {
    (f.producer_id, f.sequence_number)
}

/// Receives fragments and hands out completed frames, never one that is not
/// newer than the last frame delivered or evicted for its producer.
pub struct TransportSubscriber {
    pending: Vec<PendingFrame>,
    next_expected: SequenceTable,
    clock: u64,
    max_pending_frames: usize,
    reassembly_timeout: u64,
    max_fragments: usize,
    evictions: u64,
    stale_discards: u64,
    rejected: u64,
    delivered: u64,
    log: Ghost<Seq<(u32, u32)>>,
    evicted: Ghost<Set<(u32, u32)>>,
}

impl TransportSubscriber {
    pub closed spec fn wf(&self) -> bool {
        &&& self.next_expected.wf()
        &&& self.max_pending_frames > 0
        &&& self.max_fragments > 0
        &&& self.pending@.len() <= self.max_pending_frames
        &&& forall|i: int|
            0 <= i < self.pending@.len() ==> {
                &&& (#[trigger] self.pending@[i]).slots@.len() == self.pending@[i].fragment_count
                &&& 1 <= self.pending@[i].fragment_count <= self.max_fragments
                &&& self.pending@[i].first_arrival <= self.clock
                &&& !self.log@.contains(key_of(self.pending@[i]))
            }
        &&& forall|i: int, j: int|
            0 <= i < j < self.pending@.len() ==> key_of(self.pending@[i]) != key_of(
                self.pending@[j],
            ) && self.pending@[i].first_arrival <= self.pending@[j].first_arrival
        &&& forall|i: int|
            0 <= i < self.log@.len() ==> (#[trigger] self.log@[i]).1 < self.next_expected.value(
                self.log@[i].0,
            )
        &&& forall|k: (u32, u32)|
            #[trigger] self.evicted@.contains(k) ==> k.1 < self.next_expected.value(k.0)
                && !self.log@.contains(k)
        &&& forall|i: int, j: int|
            0 <= i < j < self.log@.len() && self.log@[i].0 == self.log@[j].0 ==> self.log@[i].1
                < self.log@[j].1
    }

    /// The lowest sequence number of `producer_id` that can still be delivered.
    pub closed spec fn next_expected(&self, producer_id: u32) -> nat {
        self.next_expected.value(producer_id)
    }

    /// The frames delivered so far, in delivery order.
    pub closed spec fn delivered_log(&self) -> Seq<(u32, u32)> {
        self.log@
    }

    /// The frames evicted so far without delivery.
    pub closed spec fn evicted_keys(&self) -> Set<(u32, u32)> {
        self.evicted@
    }

    /// The incomplete frames, oldest first.
    pub closed spec fn pending_frames(&self) -> Seq<PendingFrame> {
        self.pending@
    }

    pub closed spec fn spec_clock(&self) -> nat {
        self.clock as nat
    }

    pub closed spec fn spec_timeout(&self) -> nat {
        self.reassembly_timeout as nat
    }

    pub closed spec fn spec_max_fragments(&self) -> nat {
        self.max_fragments as nat
    }

    pub closed spec fn spec_max_pending(&self) -> nat {
        self.max_pending_frames as nat
    }

    pub closed spec fn eviction_count(&self) -> nat {
        self.evictions as nat
    }

    pub closed spec fn stale_count(&self) -> nat {
        self.stale_discards as nat
    }

    pub closed spec fn rejected_count(&self) -> nat {
        self.rejected as nat
    }

    pub closed spec fn delivered_count(&self) -> nat {
        self.delivered as nat
    }

    pub open spec fn has_pending(&self, k: (u32, u32)) -> bool {
        exists|i: int|
            0 <= i < self.pending_frames().len() && key_of(#[trigger] self.pending_frames()[i]) == k
    }

    pub open spec fn pending_entry(&self, k: (u32, u32)) -> PendingFrame {
        let i = choose|i: int|
            0 <= i < self.pending_frames().len() && key_of(#[trigger] self.pending_frames()[i])
                == k;
        self.pending_frames()[i]
    }

    /// The clock after a call made at `now`: time never runs backwards.
    pub open spec fn time_after(&self, now: u64) -> nat {
        if now > self.spec_clock() {
            now as nat
        } else {
            self.spec_clock()
        }
    }

    /// The entry has been collecting for longer than the reassembly timeout.
    pub open spec fn is_expired(&self, e: PendingFrame, t: nat) -> bool {
        t - e.first_arrival > self.spec_timeout()
    }

    /// Some entry is expired at `now`; entries are kept oldest first.
    pub open spec fn any_expired(&self, now: u64) -> bool {
        self.pending_frames().len() > 0 && self.is_expired(
            self.pending_frames()[0],
            self.time_after(now),
        )
    }

    /// The fragment describes a possible part of a frame this subscriber can hold.
    pub open spec fn valid_fragment(&self, f: Fragment) -> bool {
        &&& 1 <= f.fragment_count <= self.spec_max_fragments()
        &&& f.fragment_index < f.fragment_count
    }

    /// The fragment is valid, not stale, agrees with its frame's entry, and
    /// that entry has not timed out.
    pub open spec fn accepts(&self, f: Fragment, now: u64) -> bool {
        &&& self.valid_fragment(f)
        &&& f.sequence_number >= self.next_expected(f.producer_id)
        &&& self.has_pending(fragment_key(f)) ==> {
            &&& self.pending_entry(fragment_key(f)).fragment_count == f.fragment_count
            &&& !self.is_expired(self.pending_entry(fragment_key(f)), self.time_after(now))
        }
    }

    /// The parts of the fragment's frame once the fragment is added; a
    /// duplicate index leaves them as they were.
    pub open spec fn parts_with(&self, f: Fragment) -> Map<nat, Seq<u8>> {
        let base = if self.has_pending(fragment_key(f)) {
            slots_map(self.pending_entry(fragment_key(f)).slots@)
        } else {
            Map::empty()
        };
        if base.contains_key(f.fragment_index as nat) {
            base
        } else {
            base.insert(f.fragment_index as nat, f.bytes@)
        }
    }

    /// Frames are kept for at most `reassembly_timeout` clock units, at most
    /// `max_pending_frames` at a time, and of at most `max_fragments` fragments.
    pub fn new(max_pending_frames: usize, reassembly_timeout: u64, max_fragments: usize) -> (s:
        Self)
        requires
            max_pending_frames > 0,
            max_fragments > 0,
        ensures
            s.wf(),
            s.pending_frames().len() == 0,
            s.delivered_log().len() == 0,
            s.evicted_keys().is_empty(),
            forall|p: u32| s.next_expected(p) == 0,
            s.spec_clock() == 0,
            s.spec_timeout() == reassembly_timeout,
            s.spec_max_fragments() == max_fragments,
            s.spec_max_pending() == max_pending_frames,
            s.eviction_count() == 0,
    {
        TransportSubscriber {
            pending: Vec::new(),
            next_expected: SequenceTable::new(),
            clock: 0,
            max_pending_frames,
            reassembly_timeout,
            max_fragments,
            evictions: 0,
            stale_discards: 0,
            rejected: 0,
            delivered: 0,
            log: Ghost(Seq::empty()),
            evicted: Ghost(Set::empty()),
        }
    }
}

} // verus!

verus! {

impl TransportSubscriber {
    /// Drops the oldest pending frame without delivering it, and moves its
    /// producer's watermark past it.
    fn evict_front(&mut self)
        requires
            old(self).wf(),
            old(self).pending_frames().len() > 0,
        ensures
            final(self).wf(),
            final(self).pending_frames() == old(self).pending_frames().subrange(
                1,
                old(self).pending_frames().len() as int,
            ),
            final(self).delivered_log() == old(self).delivered_log(),
            final(self).evicted_keys() == old(self).evicted_keys().insert(
                key_of(old(self).pending_frames()[0]),
            ),
            final(self).next_expected(old(self).pending_frames()[0].producer_id)
                > old(self).pending_frames()[0].sequence_number,
            forall|p: u32| final(self).next_expected(p) >= old(self).next_expected(p),
            final(self).spec_clock() == old(self).spec_clock(),
            final(self).spec_timeout() == old(self).spec_timeout(),
            final(self).spec_max_fragments() == old(self).spec_max_fragments(),
            final(self).spec_max_pending() == old(self).spec_max_pending(),
    {
        let ghost pre = *self;
        let e = self.pending.remove(0);
        let p = e.producer_id;
        let raised = e.sequence_number as u64 + 1;
        if self.next_expected.get(p) < raised {
            self.next_expected.set(p, raised);
        }
        self.evictions = saturating_increment(self.evictions);
        self.evicted = Ghost(self.evicted@.insert(key_of(e)));
        proof {
            assert(pre.pending@[0] == e);
            assert forall|i: int| 0 <= i < self.pending@.len() implies {
                &&& (#[trigger] self.pending@[i]).slots@.len() == self.pending@[i].fragment_count
                &&& 1 <= self.pending@[i].fragment_count <= self.max_fragments
                &&& self.pending@[i].first_arrival <= self.clock
                &&& !self.log@.contains(key_of(self.pending@[i]))
            } by {
                assert(self.pending@[i] == pre.pending@[i + 1]);
            }
            assert forall|i: int, j: int| 0 <= i < j < self.pending@.len() implies key_of(
                self.pending@[i],
            ) != key_of(self.pending@[j]) && self.pending@[i].first_arrival
                <= self.pending@[j].first_arrival by {
                assert(self.pending@[i] == pre.pending@[i + 1]);
                assert(self.pending@[j] == pre.pending@[j + 1]);
            }
            assert forall|i: int| 0 <= i < self.log@.len() implies (#[trigger] self.log@[i]).1
                < self.next_expected.value(self.log@[i].0) by {
                assert(pre.log@[i].1 < pre.next_expected.value(pre.log@[i].0));
            }
            assert forall|k: (u32, u32)| #[trigger] self.evicted@.contains(k) implies k.1
                < self.next_expected.value(k.0) && !self.log@.contains(k) by {
                if k != key_of(e) {
                    assert(pre.evicted@.contains(k));
                }
            }
        }
    }

    /// Moves the clock to `now` (it never runs backwards) and evicts, without
    /// delivery, every pending frame that has been collecting for longer than
    /// the reassembly timeout. Returns how many were evicted.
    pub fn evict_expired(&mut self, now: u64) -> (d: usize)
        requires
            old(self).wf(),
        ensures
            final(self).wf(),
            final(self).spec_clock() == old(self).time_after(now),
            d <= old(self).pending_frames().len(),
            final(self).pending_frames() == old(self).pending_frames().subrange(
                d as int,
                old(self).pending_frames().len() as int,
            ),
            forall|j: int|
                0 <= j < d ==> old(self).is_expired(
                    #[trigger] old(self).pending_frames()[j],
                    old(self).time_after(now),
                ) && final(self).evicted_keys().contains(key_of(old(self).pending_frames()[j]))
                    && final(self).next_expected(old(self).pending_frames()[j].producer_id)
                    > old(self).pending_frames()[j].sequence_number,
            forall|j: int|
                0 <= j < final(self).pending_frames().len() ==> !final(self).is_expired(
                    #[trigger] final(self).pending_frames()[j],
                    final(self).spec_clock(),
                ),
            d == 0 <==> !old(self).any_expired(now),
            final(self).delivered_log() == old(self).delivered_log(),
            old(self).evicted_keys().subset_of(final(self).evicted_keys()),
            forall|p: u32| final(self).next_expected(p) >= old(self).next_expected(p),
            d == 0 ==> forall|p: u32| final(self).next_expected(p) == old(self).next_expected(p),
            final(self).spec_timeout() == old(self).spec_timeout(),
            final(self).spec_max_fragments() == old(self).spec_max_fragments(),
            final(self).spec_max_pending() == old(self).spec_max_pending(),
    {
        let ghost pre = *self;
        if now > self.clock {
            self.clock = now;
        }
        let t = self.clock;
        let mut d: usize = 0;
        while self.pending.len() > 0 && t - self.pending[0].first_arrival > self.reassembly_timeout
            invariant
                self.wf(),
                self.clock == t,
                t == pre.time_after(now),
                self.reassembly_timeout == pre.reassembly_timeout,
                self.max_fragments == pre.max_fragments,
                self.max_pending_frames == pre.max_pending_frames,
                d <= pre.pending@.len(),
                self.pending@ == pre.pending@.subrange(d as int, pre.pending@.len() as int),
                forall|j: int|
                    0 <= j < d ==> pre.is_expired(#[trigger] pre.pending@[j], t as nat)
                        && self.evicted@.contains(key_of(pre.pending@[j]))
                        && self.next_expected.value(pre.pending@[j].producer_id)
                        > pre.pending@[j].sequence_number,
                self.log@ == pre.log@,
                pre.evicted@.subset_of(self.evicted@),
                pre.wf(),
                forall|p: u32| self.next_expected(p) >= pre.next_expected(p),
                d == 0 ==> forall|p: u32| self.next_expected(p) == pre.next_expected(p),
            decreases self.pending@.len(),
        {
            let ghost mid = *self;
            self.evict_front();
            proof {
                assert(mid.pending@[0] == pre.pending@[d as int]);
                assert(self.pending@ =~= pre.pending@.subrange(d + 1, pre.pending@.len() as int));
                assert forall|j: int| 0 <= j < d + 1 implies pre.is_expired(
                    #[trigger] pre.pending@[j],
                    t as nat,
                ) && self.evicted@.contains(key_of(pre.pending@[j]))
                    && self.next_expected.value(pre.pending@[j].producer_id)
                    > pre.pending@[j].sequence_number by {
                    if j < d {
                        assert(mid.evicted@.contains(key_of(pre.pending@[j])));
                        assert(mid.next_expected.value(pre.pending@[j].producer_id)
                            > pre.pending@[j].sequence_number);
                    }
                }
            }
            assert forall|p: u32| self.next_expected(p) >= pre.next_expected(p) by {
                assert(self.next_expected(p) >= mid.next_expected(p));
            }
            d += 1;
        }
        proof {
            if self.pending@.len() > 0 {
                assert forall|j: int| 0 <= j < self.pending@.len() implies !self.is_expired(
                    #[trigger] self.pending@[j],
                    t as nat,
                ) by {
                    if j > 0 {
                        assert(self.pending@[0].first_arrival <= self.pending@[j].first_arrival);
                    }
                }
            }
            if d == 0 && pre.pending@.len() > 0 {
                assert(self.pending@[0] == pre.pending@[0]);
            }
        }
        d
    }

    fn find_pending(&self, producer_id: u32, sequence_number: u32) -> (r: Option<usize>)
        ensures
            match r {
                Some(i) => i < self.pending@.len() && key_of(self.pending@[i as int]) == (
                    producer_id,
                    sequence_number,
                ),
                None => !self.has_pending((producer_id, sequence_number)),
            },
    {
        let mut i: usize = 0;
        while i < self.pending.len()
            invariant
                i <= self.pending@.len(),
                forall|k: int|
                    0 <= k < i ==> key_of(#[trigger] self.pending@[k]) != (
                        producer_id,
                        sequence_number,
                    ),
            decreases self.pending@.len() - i,
        {
            if self.pending[i].producer_id == producer_id && self.pending[i].sequence_number
                == sequence_number {
                return Some(i);
            }
            i += 1;
        }
        None
    }

    /// Records the delivery of a frame that no pending entry holds.
    fn record_delivery(&mut self, producer_id: u32, sequence_number: u32)
        requires
            old(self).wf(),
            sequence_number >= old(self).next_expected(producer_id),
            !old(self).has_pending((producer_id, sequence_number)),
        ensures
            final(self).wf(),
            final(self).pending_frames() == old(self).pending_frames(),
            final(self).delivered_log() == old(self).delivered_log().push(
                (producer_id, sequence_number),
            ),
            final(self).evicted_keys() == old(self).evicted_keys(),
            final(self).next_expected(producer_id) == sequence_number + 1,
            forall|p: u32| p != producer_id ==> final(self).next_expected(p) == old(self).next_expected(p),
            final(self).spec_clock() == old(self).spec_clock(),
            final(self).spec_timeout() == old(self).spec_timeout(),
            final(self).spec_max_fragments() == old(self).spec_max_fragments(),
            final(self).spec_max_pending() == old(self).spec_max_pending(),
    {
        let ghost pre = *self;
        let k = (producer_id, sequence_number);
        self.next_expected.set(producer_id, sequence_number as u64 + 1);
        self.delivered = saturating_increment(self.delivered);
        self.log = Ghost(self.log@.push(k));
        proof {
            assert forall|i: int| 0 <= i < self.pending@.len() implies !self.log@.contains(
                key_of(#[trigger] self.pending@[i]),
            ) by {
                assert(key_of(pre.pending_frames()[i]) != k);
                if self.log@.contains(key_of(self.pending@[i])) {
                    let j = choose|j: int| 0 <= j < self.log@.len() && self.log@[j] == key_of(
                        self.pending@[i],
                    );
                    assert(pre.log@[j] == key_of(pre.pending@[i]));
                }
            }
            assert forall|i: int| 0 <= i < self.log@.len() implies (#[trigger] self.log@[i]).1
                < self.next_expected.value(self.log@[i].0) by {
                if i < pre.log@.len() {
                    assert(pre.log@[i].1 < pre.next_expected.value(pre.log@[i].0));
                }
            }
            assert forall|q: (u32, u32)| #[trigger] self.evicted@.contains(q) implies q.1
                < self.next_expected.value(q.0) && !self.log@.contains(q) by {
                assert(pre.evicted@.contains(q));
                if self.log@.contains(q) {
                    let j = choose|j: int| 0 <= j < self.log@.len() && self.log@[j] == q;
                    if j < pre.log@.len() {
                        assert(pre.log@[j] == q);
                    }
                }
            }
            assert forall|i: int, j: int|
                0 <= i < j < self.log@.len() && self.log@[i].0 == self.log@[j].0 implies self.log@[i].1
                < self.log@[j].1 by {
                if j == pre.log@.len() {
                    assert(pre.log@[i].1 < pre.next_expected.value(pre.log@[i].0));
                }
            }
        }
    }
}

} // verus!

verus! {

impl TransportSubscriber {
    /// Adds a fragment to the pending entry at `i`, which collects its frame,
    /// and hands out the frame if the fragment completes it.
    fn add_to_entry(&mut self, i: usize, fragment: Fragment) -> (r: Option<FrameEnvelope>)
        requires
            old(self).wf(),
            i < old(self).pending_frames().len(),
            key_of(old(self).pending_frames()[i as int]) == fragment_key(fragment),
            old(self).pending_frames()[i as int].fragment_count == fragment.fragment_count,
            old(self).valid_fragment(fragment),
            fragment.sequence_number >= old(self).next_expected(fragment.producer_id),
        ensures
            final(self).wf(),
            old(self).has_pending(fragment_key(fragment)),
            old(self).pending_entry(fragment_key(fragment)) == old(self).pending_frames()[i as int],
            r is Some <==> covers(old(self).parts_with(fragment), fragment.fragment_count as nat),
            r is Some ==> {
                let e = r->Some_0;
                &&& e.producer_id == fragment.producer_id
                &&& e.sequence_number == fragment.sequence_number
                &&& e.payload@ == assemble(
                    old(self).parts_with(fragment),
                    fragment.fragment_count as nat,
                )
                &&& final(self).delivered_log() == old(self).delivered_log().push(
                    fragment_key(fragment),
                )
                &&& final(self).next_expected(fragment.producer_id) == fragment.sequence_number + 1
            },
            r is None ==> {
                &&& final(self).delivered_log() == old(self).delivered_log()
                &&& final(self).has_pending(fragment_key(fragment))
                &&& final(self).pending_entry(fragment_key(fragment)).fragment_count
                    == fragment.fragment_count
                &&& slots_map(final(self).pending_entry(fragment_key(fragment)).slots@) == old(
                    self,
                ).parts_with(fragment)
            },
            forall|p: u32| final(self).next_expected(p) >= old(self).next_expected(p),
            final(self).evicted_keys() == old(self).evicted_keys(),
            final(self).spec_clock() == old(self).spec_clock(),
            final(self).spec_timeout() == old(self).spec_timeout(),
            final(self).spec_max_fragments() == old(self).spec_max_fragments(),
            final(self).spec_max_pending() == old(self).spec_max_pending(),
    {
        let ghost pre = *self;
        let ghost k = fragment_key(fragment);
        let p = fragment.producer_id;
        let s = fragment.sequence_number;
        let idx = fragment.fragment_index;
        proof {
            assert(key_of(pre.pending_frames()[i as int]) == k);
            assert(pre.has_pending(k));
            let j = choose|j: int|
                0 <= j < pre.pending_frames().len() && key_of(#[trigger] pre.pending_frames()[j])
                    == k;
            if j != i as int {
                if j < i {
                    assert(key_of(pre.pending@[j]) != key_of(pre.pending@[i as int]));
                } else {
                    assert(key_of(pre.pending@[i as int]) != key_of(pre.pending@[j]));
                }
            }
        }
        let ghost mid = *self;
        let mut entry = self.pending.remove(i);
        let ghost before = entry.slots@;
        let slot = idx as usize;
        if entry.slots[slot].is_none() {
            entry.slots.set(slot, Some(fragment.bytes));
            proof {
                assert(slots_map(entry.slots@) =~= slots_map(before).insert(
                    idx as nat,
                    fragment.bytes@,
                ));
            }
        } else {
            proof {
                assert(slots_map(before).contains_key(idx as nat));
            }
        }
        proof {
            assert(slots_map(entry.slots@) == pre.parts_with(fragment));
        }
        match assemble_slots(&entry.slots) {
            Some(payload) => {
                proof {
                    assert forall|j: int|
                        0 <= j < self.pending_frames().len() implies key_of(
                        #[trigger] self.pending_frames()[j],
                    ) != k by {
                        if j < i {
                            assert(self.pending@[j] == mid.pending@[j]);
                            assert(key_of(mid.pending@[j]) != key_of(mid.pending@[i as int]));
                        } else {
                            assert(self.pending@[j] == mid.pending@[j + 1]);
                            assert(key_of(mid.pending@[i as int]) != key_of(mid.pending@[j + 1]));
                        }
                    }
                    assert forall|j: int| 0 <= j < self.pending@.len() implies {
                        &&& (#[trigger] self.pending@[j]).slots@.len()
                            == self.pending@[j].fragment_count
                        &&& 1 <= self.pending@[j].fragment_count <= self.max_fragments
                        &&& self.pending@[j].first_arrival <= self.clock
                        &&& !self.log@.contains(key_of(self.pending@[j]))
                    } by {
                        if j < i {
                            assert(self.pending@[j] == mid.pending@[j]);
                        } else {
                            assert(self.pending@[j] == mid.pending@[j + 1]);
                        }
                    }
                    assert forall|a: int, b: int| 0 <= a < b < self.pending@.len() implies key_of(
                        self.pending@[a],
                    ) != key_of(self.pending@[b]) && self.pending@[a].first_arrival
                        <= self.pending@[b].first_arrival by {
                        let a2 = if a < i { a } else { a + 1 };
                        let b2 = if b < i { b } else { b + 1 };
                        assert(self.pending@[a] == mid.pending@[a2]);
                        assert(self.pending@[b] == mid.pending@[b2]);
                    }
                }
                self.record_delivery(p, s);
                Some(FrameEnvelope { producer_id: p, sequence_number: s, payload })
            },
            None => {
                let ghost gentry = entry;
                self.pending.insert(i, entry);
                proof {
                    let entry = gentry;
                    assert(self.pending@ =~= mid.pending@.update(i as int, entry));
                    assert forall|j: int| 0 <= j < self.pending@.len() implies {
                        &&& (#[trigger] self.pending@[j]).slots@.len()
                            == self.pending@[j].fragment_count
                        &&& 1 <= self.pending@[j].fragment_count <= self.max_fragments
                        &&& self.pending@[j].first_arrival <= self.clock
                        &&& !self.log@.contains(key_of(self.pending@[j]))
                    } by {
                        if j != i {
                            assert(self.pending@[j] == mid.pending@[j]);
                        }
                    }
                    assert forall|a: int, b: int| 0 <= a < b < self.pending@.len() implies key_of(
                        self.pending@[a],
                    ) != key_of(self.pending@[b]) && self.pending@[a].first_arrival
                        <= self.pending@[b].first_arrival by {
                        assert(key_of(self.pending@[a]) == key_of(mid.pending@[a]));
                        assert(key_of(self.pending@[b]) == key_of(mid.pending@[b]));
                        assert(self.pending@[a].first_arrival == mid.pending@[a].first_arrival);
                        assert(self.pending@[b].first_arrival == mid.pending@[b].first_arrival);
                    }
                    assert(key_of(self.pending_frames()[i as int]) == k);
                    assert(self.has_pending(k));
                    let c = choose|c: int|
                        0 <= c < self.pending_frames().len() && key_of(
                            #[trigger] self.pending_frames()[c],
                        ) == k;
                    if c != i as int {
                        if c < i {
                            assert(key_of(self.pending@[c]) != key_of(self.pending@[i as int]));
                        } else {
                            assert(key_of(self.pending@[i as int]) != key_of(self.pending@[c]));
                        }
                    }
                    assert(self.pending_entry(k) == entry);
                }
                None
            },
        }
    }

    /// Starts collecting a frame that no entry holds yet. A single-fragment
    /// frame is handed out at once; otherwise the oldest entry is evicted
    /// when the table is full.
    fn start_entry(&mut self, fragment: Fragment) -> (r: Option<FrameEnvelope>)
        requires
            old(self).wf(),
            !old(self).has_pending(fragment_key(fragment)),
            old(self).valid_fragment(fragment),
            fragment.sequence_number >= old(self).next_expected(fragment.producer_id),
        ensures
            final(self).wf(),
            r is Some <==> covers(old(self).parts_with(fragment), fragment.fragment_count as nat),
            r is Some ==> {
                let e = r->Some_0;
                &&& e.producer_id == fragment.producer_id
                &&& e.sequence_number == fragment.sequence_number
                &&& e.payload@ == assemble(
                    old(self).parts_with(fragment),
                    fragment.fragment_count as nat,
                )
                &&& final(self).delivered_log() == old(self).delivered_log().push(
                    fragment_key(fragment),
                )
                &&& final(self).next_expected(fragment.producer_id) == fragment.sequence_number + 1
            },
            r is None ==> {
                &&& final(self).delivered_log() == old(self).delivered_log()
                &&& (final(self).has_pending(fragment_key(fragment)) && final(self).pending_entry(
                    fragment_key(fragment),
                ).fragment_count == fragment.fragment_count && slots_map(
                    final(self).pending_entry(fragment_key(fragment)).slots@,
                ) == old(self).parts_with(fragment)) || final(self).next_expected(
                    fragment.producer_id,
                ) > fragment.sequence_number
            },
            forall|p: u32| final(self).next_expected(p) >= old(self).next_expected(p),
            old(self).evicted_keys().subset_of(final(self).evicted_keys()),
            final(self).spec_clock() == old(self).spec_clock(),
            final(self).spec_timeout() == old(self).spec_timeout(),
            final(self).spec_max_fragments() == old(self).spec_max_fragments(),
            final(self).spec_max_pending() == old(self).spec_max_pending(),
    {
        let ghost pre = *self;
        let ghost k = fragment_key(fragment);
        let p = fragment.producer_id;
        let s = fragment.sequence_number;
        let count = fragment.fragment_count;
        let idx = fragment.fragment_index;
        if count == 1 {
            proof {
                assert(idx == 0);
                let parts = pre.parts_with(fragment);
                assert(parts =~= Map::<nat, Seq<u8>>::empty().insert(0, fragment.bytes@));
                assert(assemble(parts, 1) == assemble(parts, 0) + parts[0]);
                assert(assemble(parts, 0) + parts[0] =~= fragment.bytes@);
            }
            self.record_delivery(p, s);
            return Some(FrameEnvelope { producer_id: p, sequence_number: s, payload: fragment.bytes });
        }
        proof {
            let parts = pre.parts_with(fragment);
            let other: nat = if idx == 0 { 1 } else { 0 };
            assert(!parts.contains_key(other));
        }
        if self.pending.len() >= self.max_pending_frames {
            self.evict_front();
            if (s as u64) < self.next_expected.get(p) {
                self.stale_discards = saturating_increment(self.stale_discards);
                return None;
            }
        }
        let ghost mid = *self;
        let mut slots = empty_slots(count);
        slots.set(idx as usize, Some(fragment.bytes));
        let e = PendingFrame {
            producer_id: p,
            sequence_number: s,
            fragment_count: count,
            first_arrival: self.clock,
            slots,
        };
        let ghost ge = e;
        self.pending.push(e);
        proof {
            let e = ge;
            let n = mid.pending@.len() as int;
            assert(!mid.has_pending(k));
            assert forall|j: int| 0 <= j < n implies key_of(#[trigger] mid.pending@[j]) != k by {
                assert(key_of(mid.pending_frames()[j]) != k);
            }
            assert(!self.log@.contains(k)) by {
                if self.log@.contains(k) {
                    let j = choose|j: int| 0 <= j < self.log@.len() && self.log@[j] == k;
                    assert(self.log@[j].1 < self.next_expected.value(self.log@[j].0));
                }
            }
            assert forall|j: int| 0 <= j < self.pending@.len() implies {
                &&& (#[trigger] self.pending@[j]).slots@.len() == self.pending@[j].fragment_count
                &&& 1 <= self.pending@[j].fragment_count <= self.max_fragments
                &&& self.pending@[j].first_arrival <= self.clock
                &&& !self.log@.contains(key_of(self.pending@[j]))
            } by {
                if j < n {
                    assert(self.pending@[j] == mid.pending@[j]);
                }
            }
            assert forall|a: int, b: int| 0 <= a < b < self.pending@.len() implies key_of(
                self.pending@[a],
            ) != key_of(self.pending@[b]) && self.pending@[a].first_arrival
                <= self.pending@[b].first_arrival by {
                assert(self.pending@[a] == mid.pending@[a]);
                if b < n {
                    assert(self.pending@[b] == mid.pending@[b]);
                }
            }
            assert(key_of(self.pending_frames()[n]) == k);
            assert(self.has_pending(k));
            let c = choose|c: int|
                0 <= c < self.pending_frames().len() && key_of(
                    #[trigger] self.pending_frames()[c],
                ) == k;
            if c != n {
                assert(key_of(self.pending@[c]) != key_of(self.pending@[n]));
            }
            assert(self.pending_entry(k) == e);
            assert(slots_map(e.slots@) =~= pre.parts_with(fragment));
        }
        None
    }

    /// Handles one fragment arriving at time `now`. Expired entries are
    /// evicted first. Invalid, stale and inconsistent fragments are dropped and
    /// counted; a duplicate index is ignored. When the fragment completes its
    /// frame, the frame is removed from the table and returned for the sink.
    pub fn on_fragment_received(&mut self, fragment: Fragment, now: u64) -> (r: Option<
        FrameEnvelope,
    >)
        requires
            old(self).wf(),
        ensures
            final(self).wf(),
            final(self).spec_clock() == old(self).time_after(now),
            r is Some ==> {
                let e = r->Some_0;
                &&& old(self).accepts(fragment, now)
                &&& covers(old(self).parts_with(fragment), fragment.fragment_count as nat)
                &&& e.producer_id == fragment.producer_id
                &&& e.sequence_number == fragment.sequence_number
                &&& e.payload@ == assemble(
                    old(self).parts_with(fragment),
                    fragment.fragment_count as nat,
                )
                &&& final(self).delivered_log() == old(self).delivered_log().push(
                    fragment_key(fragment),
                )
                &&& final(self).next_expected(fragment.producer_id) == fragment.sequence_number + 1
                &&& !old(self).evicted_keys().contains(fragment_key(fragment))
            },
            r is None ==> final(self).delivered_log() == old(self).delivered_log(),
            !old(self).accepts(fragment, now) ==> r is None,
            old(self).accepts(fragment, now) && covers(
                old(self).parts_with(fragment),
                fragment.fragment_count as nat,
            ) && !old(self).any_expired(now) ==> r is Some,
            old(self).accepts(fragment, now) && !covers(
                old(self).parts_with(fragment),
                fragment.fragment_count as nat,
            ) && !old(self).any_expired(now) ==> r is None && ((final(self).has_pending(
                fragment_key(fragment),
            ) && final(self).pending_entry(fragment_key(fragment)).fragment_count
                == fragment.fragment_count && slots_map(
                final(self).pending_entry(fragment_key(fragment)).slots@,
            ) == old(self).parts_with(fragment)) || final(self).next_expected(fragment.producer_id)
                > fragment.sequence_number),
            forall|p: u32| final(self).next_expected(p) >= old(self).next_expected(p),
            old(self).evicted_keys().subset_of(final(self).evicted_keys()),
            final(self).spec_timeout() == old(self).spec_timeout(),
            final(self).spec_max_fragments() == old(self).spec_max_fragments(),
            final(self).spec_max_pending() == old(self).spec_max_pending(),
    {
        let ghost pre = *self;
        let ghost k = fragment_key(fragment);
        let d = self.evict_expired(now);
        let ghost post = *self;
        let p = fragment.producer_id;
        let s = fragment.sequence_number;
        let count = fragment.fragment_count;
        let idx = fragment.fragment_index;
        if count == 0 || idx >= count || count > self.max_fragments as u64 {
            self.rejected = saturating_increment(self.rejected);
            return None;
        }
        if (s as u64) < self.next_expected.get(p) {
            proof {
                if pre.accepts(fragment, now) && !pre.any_expired(now) {
                    assert(self.next_expected(p) == pre.next_expected(p));
                }
            }
            self.stale_discards = saturating_increment(self.stale_discards);
            return None;
        }
        proof {
            assert(!pre.evicted_keys().contains(k));
            // A frame of this key that was pending before has not expired:
            // otherwise its eviction would have made the fragment stale.
            if pre.has_pending(k) {
                let j = choose|j: int|
                    0 <= j < pre.pending_frames().len() && key_of(
                        #[trigger] pre.pending_frames()[j],
                    ) == k;
                if j < d {
                    assert(post.next_expected(pre.pending_frames()[j].producer_id)
                        > pre.pending_frames()[j].sequence_number);
                }
                assert(j >= d);
                assert(post.pending@[j - d] == pre.pending@[j]);
                assert(post.has_pending(k));
                let c = choose|c: int|
                    0 <= c < post.pending_frames().len() && key_of(
                        #[trigger] post.pending_frames()[c],
                    ) == k;
                assert(post.pending@[c] == pre.pending@[c + d]);
                if c + d != j {
                    if c + d < j {
                        assert(key_of(pre.pending@[c + d]) != key_of(pre.pending@[j]));
                    } else {
                        assert(key_of(pre.pending@[j]) != key_of(pre.pending@[c + d]));
                    }
                }
                assert(post.pending_entry(k) == pre.pending_entry(k));
                assert(!post.is_expired(post.pending@[j - d], post.clock as nat));
                assert(post.parts_with(fragment) == pre.parts_with(fragment));
            } else {
                if post.has_pending(k) {
                    let c = choose|c: int|
                        0 <= c < post.pending_frames().len() && key_of(
                            #[trigger] post.pending_frames()[c],
                        ) == k;
                    assert(post.pending@[c] == pre.pending@[c + d]);
                    assert(key_of(pre.pending_frames()[c + d]) == k);
                }
                assert(post.parts_with(fragment) == pre.parts_with(fragment));
            }
        }
        match self.find_pending(p, s) {
            Some(i) => {
                if self.pending[i].fragment_count != count {
                    self.rejected = saturating_increment(self.rejected);
                    return None;
                }
                self.add_to_entry(i, fragment)
            },
            None => self.start_entry(fragment),
        }
    }
}

} // verus!

verus! {

/// The frames handed to the sink carry, per producer, strictly increasing
/// sequence numbers, whatever order their fragments arrived in.
pub proof fn lemma_delivery_strictly_increasing(s: &TransportSubscriber)
    requires
        s.wf(),
    ensures
        forall|i: int, j: int|
            0 <= i < j < s.delivered_log().len() && s.delivered_log()[i].0
                == s.delivered_log()[j].0 ==> s.delivered_log()[i].1 < s.delivered_log()[j].1,
        forall|i: int|
            0 <= i < s.delivered_log().len() ==> (#[trigger] s.delivered_log()[i]).1
                < s.next_expected(s.delivered_log()[i].0),
{
}

/// A frame that was evicted has not been delivered, and every later fragment
/// of it is refused, so it is never delivered afterwards either.
pub proof fn lemma_evicted_never_delivered(
    s: &TransportSubscriber,
    k: (u32, u32),
    f: Fragment,
    now: u64,
)
    requires
        s.wf(),
        s.evicted_keys().contains(k),
        fragment_key(f) == k,
    ensures
        !s.delivered_log().contains(k),
        !s.accepts(f, now),
{
}

impl TransportSubscriber {
    /// A subscriber sized by the configuration: frames of more fragments than
    /// the receive buffer holds are refused.
    pub fn from_config(config: &BridgeConfig) -> (s: Self)
        requires
            config.is_valid(),
        ensures
            s.wf(),
            s.pending_frames().len() == 0,
            s.delivered_log().len() == 0,
            s.evicted_keys().is_empty(),
            forall|p: u32| s.next_expected(p) == 0,
            s.spec_clock() == 0,
            s.spec_timeout() == config.reassembly_timeout,
            s.spec_max_fragments() == config.receive_buffer_size / config.fragment_size,
            s.spec_max_pending() == config.max_pending_frames,
    {
        TransportSubscriber::new(
            config.max_pending_frames,
            config.reassembly_timeout,
            config.max_fragments_per_frame(),
        )
    }

    /// The lowest sequence number of `producer_id` that can still be delivered.
    pub fn next_expected_sequence(&self, producer_id: u32) -> (r: u64)
        requires
            self.wf(),
        ensures
            r == self.next_expected(producer_id),
    {
        self.next_expected.get(producer_id)
    }

    /// How many frames are being collected.
    pub fn pending_len(&self) -> (r: usize)
        ensures
            r == self.pending_frames().len(),
    {
        self.pending.len()
    }

    /// How many incomplete frames were evicted.
    pub fn evictions(&self) -> (r: u64)
        ensures
            r == self.eviction_count(),
    {
        self.evictions
    }

    /// How many fragments of frames that could no longer be delivered were dropped.
    pub fn stale_discards(&self) -> (r: u64)
        ensures
            r == self.stale_count(),
    {
        self.stale_discards
    }

    /// How many malformed or inconsistent fragments were dropped.
    pub fn rejected(&self) -> (r: u64)
        ensures
            r == self.rejected_count(),
    {
        self.rejected
    }

    /// How many frames were delivered.
    pub fn delivered(&self) -> (r: u64)
        ensures
            r == self.delivered_count(),
    {
        self.delivered
    }

    /// The subscriber's clock: the latest time it was given.
    pub fn clock(&self) -> (r: u64)
        ensures
            r == self.spec_clock(),
    {
        self.clock
    }
}

} // verus!
