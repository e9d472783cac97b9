//! The bounded buffer between the producer and the sender.

use vstd::prelude::*;
use crate::envelope::{FrameEnvelope, saturating_increment};
use crate::error::ErrorKind;

verus! {

/// What `enqueue` does when the queue is full.
#[derive(Debug, Clone, Copy, PartialEq, Eq, Structural)]
pub enum DropPolicy {
    /// Evict the head of the queue to make room.
    DropOldest,
    /// Refuse the incoming envelope.
    DropNewest,
    /// Hand the envelope back so that the producer can wait and retry.
    Block,
}

/// The result of offering an envelope to the queue.
#[derive(Debug)]
pub enum EnqueueOutcome {
    /// The envelope was appended; nothing was dropped.
    Accepted,
    /// The envelope was appended after the carried head was evicted.
    Evicted(FrameEnvelope),
    /// The queue was full; the carried incoming envelope was dropped.
    Rejected(FrameEnvelope),
    /// The queue was full; the carried envelope is handed back untouched.
    WouldBlock(FrameEnvelope),
}

impl EnqueueOutcome {
    /// The offered envelope is now in the queue.
    pub fn accepted(&self) -> (r: bool)
        ensures
            r == (self is Accepted || self is Evicted),
    {
        match self {
            EnqueueOutcome::Accepted => true,
            EnqueueOutcome::Evicted(_) => true,
            _ => false,
        }
    }

    /// The overflow condition, when the drop policy discarded an envelope.
    pub fn overflow(&self) -> (r: Option<ErrorKind>)
        ensures
            r == if self is Evicted || self is Rejected {
                Some(ErrorKind::QueueOverflow)
            } else {
                None
            },
    {
        match self {
            EnqueueOutcome::Evicted(_) => Some(ErrorKind::QueueOverflow),
            EnqueueOutcome::Rejected(_) => Some(ErrorKind::QueueOverflow),
            _ => None,
        }
    }
}

/// The queue's contents after one `DropOldest` enqueue.
pub open spec fn drop_oldest_step(q: Seq<FrameEnvelope>, e: FrameEnvelope, capacity: nat) -> Seq<
    FrameEnvelope,
> {
    if q.len() < capacity {
        q.push(e)
    } else {
        q.subrange(1, q.len() as int).push(e)
    }
}

/// The queue's contents after offering `arrivals`, in order, under `DropOldest`.
pub open spec fn drop_oldest_run(
    q: Seq<FrameEnvelope>,
    arrivals: Seq<FrameEnvelope>,
    capacity: nat,
) -> Seq<FrameEnvelope>
    decreases arrivals.len(),
{
    if arrivals.len() == 0 {
        q
    } else {
        drop_oldest_step(
            drop_oldest_run(q, arrivals.drop_last(), capacity),
            arrivals.last(),
            capacity,
        )
    }
}

/// The most recent `capacity` items of `s`, in their order.
pub open spec fn most_recent(s: Seq<FrameEnvelope>, capacity: nat) -> Seq<FrameEnvelope> {
    if s.len() <= capacity {
        s
    } else {
        s.subrange(s.len() - capacity, s.len() as int)
    }
}

/// Under `DropOldest`, a queue that held `q` and was then offered `arrivals`
/// holds exactly the most recent `capacity` envelopes of `q` followed by
/// `arrivals`, in arrival order.
pub proof fn lemma_drop_oldest_keeps_most_recent(
    q: Seq<FrameEnvelope>,
    arrivals: Seq<FrameEnvelope>,
    capacity: nat,
)
    requires
        capacity > 0,
        q.len() <= capacity,
    ensures
        drop_oldest_run(q, arrivals, capacity) == most_recent(q + arrivals, capacity),
    decreases arrivals.len(),
{
    if arrivals.len() == 0 {
        assert(q + arrivals =~= q);
    } else {
        let prev = arrivals.drop_last();
        lemma_drop_oldest_keeps_most_recent(q, prev, capacity);
        let s = q + prev;
        let t = q + arrivals;
        assert(t =~= s.push(arrivals.last()));
        let r = most_recent(s, capacity);
        if s.len() < capacity {
            assert(r == s);
        } else {
            assert(r.len() == capacity);
            assert(r.subrange(1, r.len() as int).push(arrivals.last()) =~= t.subrange(
                t.len() - capacity,
                t.len() as int,
            ));
        }
    }
}

/// A first-in first-out buffer of envelopes that never holds more than its
/// capacity.
pub struct BoundedFrameQueue {
    items: Vec<FrameEnvelope>,
    capacity: usize,
    policy: DropPolicy,
    dropped: u64,
}

impl BoundedFrameQueue {
    pub closed spec fn wf(&self) -> bool {
        &&& self.capacity > 0
        &&& self.items@.len() <= self.capacity
    }

    /// The pending envelopes, head first.
    pub closed spec fn contents(&self) -> Seq<FrameEnvelope> {
        self.items@
    }

    pub closed spec fn spec_capacity(&self) -> nat {
        self.capacity as nat
    }

    pub closed spec fn spec_policy(&self) -> DropPolicy {
        self.policy
    }

    /// How many envelopes the drop policy has discarded.
    pub closed spec fn dropped_count(&self) -> nat {
        self.dropped as nat
    }

    pub fn new(capacity: usize, policy: DropPolicy) -> (q: Self)
        requires
            capacity > 0,
        ensures
            q.wf(),
            q.contents() == Seq::<FrameEnvelope>::empty(),
            q.spec_capacity() == capacity,
            q.spec_policy() == policy,
            q.dropped_count() == 0,
    {
        BoundedFrameQueue { items: Vec::new(), capacity, policy, dropped: 0 }
    }

    /// Offers `envelope`; when the queue is full the drop policy decides.
    /// Never blocks: under `Block` a full queue hands the envelope back.
    pub fn enqueue(&mut self, envelope: FrameEnvelope) -> (r: EnqueueOutcome)
        requires
            old(self).wf(),
        ensures
            final(self).wf(),
            final(self).spec_capacity() == old(self).spec_capacity(),
            final(self).spec_policy() == old(self).spec_policy(),
            old(self).contents().len() < old(self).spec_capacity() ==> {
                &&& r is Accepted
                &&& final(self).contents() == old(self).contents().push(envelope)
                &&& final(self).dropped_count() == old(self).dropped_count()
            },
            old(self).contents().len() >= old(self).spec_capacity() ==> match old(self).spec_policy() {
                DropPolicy::DropOldest => {
                    &&& r == EnqueueOutcome::Evicted(old(self).contents()[0])
                    &&& final(self).contents() == old(self).contents().subrange(
                        1,
                        old(self).contents().len() as int,
                    ).push(envelope)
                    &&& final(self).dropped_count() == if old(self).dropped_count() < u64::MAX {
                        old(self).dropped_count() + 1
                    } else {
                        old(self).dropped_count()
                    }
                },
                DropPolicy::DropNewest => {
                    &&& r == EnqueueOutcome::Rejected(envelope)
                    &&& final(self).contents() == old(self).contents()
                    &&& final(self).dropped_count() == if old(self).dropped_count() < u64::MAX {
                        old(self).dropped_count() + 1
                    } else {
                        old(self).dropped_count()
                    }
                },
                DropPolicy::Block => {
                    &&& r == EnqueueOutcome::WouldBlock(envelope)
                    &&& final(self).contents() == old(self).contents()
                    &&& final(self).dropped_count() == old(self).dropped_count()
                },
            },
            old(self).spec_policy() == DropPolicy::DropOldest ==> final(self).contents()
                == drop_oldest_step(old(self).contents(), envelope, old(self).spec_capacity()),
    {
        if self.items.len() < self.capacity {
            self.items.push(envelope);
            return EnqueueOutcome::Accepted;
        }
        match self.policy {
            DropPolicy::DropOldest => {
                let head = self.items.remove(0);
                self.items.push(envelope);
                self.dropped = saturating_increment(self.dropped);
                EnqueueOutcome::Evicted(head)
            },
            DropPolicy::DropNewest => {
                self.dropped = saturating_increment(self.dropped);
                EnqueueOutcome::Rejected(envelope)
            },
            DropPolicy::Block => EnqueueOutcome::WouldBlock(envelope),
        }
    }

    /// Takes the head of the queue, if any.
    pub fn dequeue(&mut self) -> (r: Option<FrameEnvelope>)
        requires
            old(self).wf(),
        ensures
            final(self).wf(),
            final(self).spec_capacity() == old(self).spec_capacity(),
            final(self).spec_policy() == old(self).spec_policy(),
            final(self).dropped_count() == old(self).dropped_count(),
            old(self).contents().len() == 0 ==> r is None && final(self).contents() == old(
                self,
            ).contents(),
            old(self).contents().len() > 0 ==> r == Some(old(self).contents()[0])
                && final(self).contents() == old(self).contents().subrange(
                1,
                old(self).contents().len() as int,
            ),
    {
        if self.items.len() == 0 {
            None
        } else {
            Some(self.items.remove(0))
        }
    }

    pub fn len(&self) -> (r: usize)
        ensures
            r == self.contents().len(),
    {
        self.items.len()
    }

    pub fn is_empty(&self) -> (r: bool)
        ensures
            r == (self.contents().len() == 0),
    {
        self.items.len() == 0
    }

    pub fn capacity(&self) -> (r: usize)
        ensures
            r == self.spec_capacity(),
    {
        self.capacity
    }

    pub fn policy(&self) -> (r: DropPolicy)
        ensures
            r == self.spec_policy(),
    {
        self.policy
    }

    /// How many envelopes the drop policy has discarded.
    pub fn dropped(&self) -> (r: u64)
        ensures
            r == self.dropped_count(),
    {
        self.dropped
    }

    /// The sequence numbers of the pending envelopes, head first.
    pub fn sequence_numbers(&self) -> (r: Vec<u32>)
        ensures
            r@.len() == self.contents().len(),
            forall|i: int| 0 <= i < r@.len() ==> r@[i] == self.contents()[i].sequence_number,
    {
        let mut r: Vec<u32> = Vec::new();
        let mut i: usize = 0;
        while i < self.items.len()
            invariant
                i <= self.items@.len(),
                r@.len() == i,
                forall|k: int| 0 <= k < i ==> r@[k] == self.items@[k].sequence_number,
            decreases self.items@.len() - i,
        {
            r.push(self.items[i].sequence_number);
            i += 1;
        }
        r
    }
}

} // verus!
