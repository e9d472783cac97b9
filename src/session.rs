//! One run of the bridge: the objects of a session, owned together and
//! driven through the lifecycle.

use vstd::prelude::*;
use crate::config::{BridgeConfig, ConfigError};
use crate::envelope::{FrameEnvelope, FrameSerializer};
use crate::error::ErrorKind;
use crate::fragment::{Fragment, fragment_count_for, piece};
use crate::lifecycle::{LifecycleAction, LifecycleEvent, LifecycleState, PipelineLifecycle, step};
use crate::publisher::TransportPublisher;
use crate::queue::{BoundedFrameQueue, DropPolicy, EnqueueOutcome};
use crate::reassembly::TransportSubscriber;
use crate::table::SEQUENCE_LIMIT;

verus! {

/// Why a raw buffer was not queued.
#[derive(Debug, Clone, Copy, PartialEq, Eq, Structural)]
pub enum SubmitError {
    /// The session is not running: input is accepted only while it runs.
    NotRunning,
    /// The buffer was empty.
    Frame(ErrorKind),
    /// The producer has used up its sequence numbers for this session.
    SequenceExhausted,
}

/// The queue, serializer, publisher, subscriber and lifecycle of one session.
pub struct Session {
    pub serializer: FrameSerializer,
    pub queue: BoundedFrameQueue,
    pub publisher: TransportPublisher,
    pub subscriber: TransportSubscriber,
    pub lifecycle: PipelineLifecycle,
}

impl Session {
    pub open spec fn wf(&self) -> bool {
        &&& self.serializer.wf()
        &&& self.queue.wf()
        &&& self.publisher.wf()
        &&& self.subscriber.wf()
        &&& self.lifecycle.wf()
    }

    /// A session built from `config`, in the `Idle` state; a configuration
    /// out of range is refused with the error `validate` gives.
    pub fn new(config: &BridgeConfig) -> (r: Result<Session, ConfigError>)
        ensures
            r is Ok <==> config.is_valid(),
            r is Ok ==> {
                let s = r->Ok_0;
                &&& s.wf()
                &&& s.lifecycle.state == LifecycleState::Idle
                &&& s.queue.contents().len() == 0
                &&& s.queue.spec_capacity() == config.queue_capacity
                &&& s.queue.spec_policy() == config.drop_policy
                &&& s.publisher.spec_reliability() == config.reliability
                &&& s.subscriber.spec_timeout() == config.reassembly_timeout
            },
    {
        match config.validate() {
            Err(e) => Err(e),
            Ok(()) => Ok(
                Session {
                    serializer: FrameSerializer::new(),
                    queue: BoundedFrameQueue::new(config.queue_capacity, config.drop_policy),
                    publisher: TransportPublisher::from_config(config),
                    subscriber: TransportSubscriber::from_config(config),
                    lifecycle: PipelineLifecycle::new(),
                },
            ),
        }
    }

    /// Applies a lifecycle event and returns the action to perform.
    pub fn handle(&mut self, event: LifecycleEvent) -> (r: LifecycleAction)
        requires
            old(self).wf(),
        ensures
            final(self).wf(),
            (final(self).lifecycle, r) == step(old(self).lifecycle, event),
            final(self).queue == old(self).queue,
            final(self).serializer == old(self).serializer,
    {
        self.lifecycle.handle(event)
    }

    /// Serializes a raw buffer of `producer_id` and offers it to the queue.
    /// Refused while the session is not running, for an empty buffer, and
    /// once the producer's sequence numbers are used up.
    pub fn submit_frame(&mut self, producer_id: u32, raw_buffer: Vec<u8>) -> (r: Result<
        EnqueueOutcome,
        SubmitError,
    >)
        requires
            old(self).wf(),
        ensures
            final(self).wf(),
            final(self).lifecycle == old(self).lifecycle,
            old(self).lifecycle.state != LifecycleState::Running ==> r == Err::<
                EnqueueOutcome,
                SubmitError,
            >(SubmitError::NotRunning) && final(self).queue == old(self).queue,
            old(self).lifecycle.state == LifecycleState::Running && raw_buffer@.len() == 0 ==> r
                == Err::<EnqueueOutcome, SubmitError>(SubmitError::Frame(ErrorKind::EmptyFrame))
                && final(self).queue == old(self).queue,
            old(self).lifecycle.state == LifecycleState::Running && raw_buffer@.len() > 0
                && old(self).serializer.next_sequence(producer_id) > u32::MAX ==> r == Err::<
                EnqueueOutcome,
                SubmitError,
            >(SubmitError::SequenceExhausted) && final(self).queue == old(self).queue,
            old(self).lifecycle.state == LifecycleState::Running && raw_buffer@.len() > 0
                && old(self).serializer.next_sequence(producer_id) <= u32::MAX ==> {
                &&& r is Ok
                &&& final(self).serializer.next_sequence(producer_id) == old(
                    self,
                ).serializer.next_sequence(producer_id) + 1
                &&& forall|q: u32|
                    q != producer_id ==> final(self).serializer.next_sequence(q) == old(
                        self,
                    ).serializer.next_sequence(q)
                &&& final(self).queue.spec_capacity() == old(self).queue.spec_capacity()
                &&& final(self).queue.spec_policy() == old(self).queue.spec_policy()
            },
            old(self).lifecycle.state == LifecycleState::Running && raw_buffer@.len() > 0
                && old(self).serializer.next_sequence(producer_id) <= u32::MAX && (old(
                self,
            ).queue.contents().len() < old(self).queue.spec_capacity() || old(
                self,
            ).queue.spec_policy() == DropPolicy::DropOldest) ==> {
                &&& (r->Ok_0 is Accepted || r->Ok_0 is Evicted)
                &&& final(self).queue.contents().len() > 0
                &&& final(self).queue.contents().drop_last() == if old(self).queue.contents().len()
                    < old(self).queue.spec_capacity() {
                    old(self).queue.contents()
                } else {
                    old(self).queue.contents().subrange(1, old(self).queue.contents().len() as int)
                }
                &&& final(self).queue.contents().last().producer_id == producer_id
                &&& final(self).queue.contents().last().sequence_number == old(
                    self,
                ).serializer.next_sequence(producer_id)
                &&& final(self).queue.contents().last().payload@ == raw_buffer@
            },
            old(self).lifecycle.state == LifecycleState::Running && raw_buffer@.len() > 0
                && old(self).serializer.next_sequence(producer_id) <= u32::MAX && old(
                self,
            ).queue.contents().len() >= old(self).queue.spec_capacity() && old(
                self,
            ).queue.spec_policy() != DropPolicy::DropOldest ==> {
                &&& r is Ok
                &&& (r->Ok_0 is Rejected || r->Ok_0 is WouldBlock)
                &&& final(self).queue.contents() == old(self).queue.contents()
            },
    {
        if self.lifecycle.state != LifecycleState::Running {
            return Err(SubmitError::NotRunning);
        }
        if raw_buffer.len() == 0 {
            let _ = self.serializer.serialize(producer_id, raw_buffer);
            return Err(SubmitError::Frame(ErrorKind::EmptyFrame));
        }
        if self.serializer.next_sequence_number(producer_id) >= SEQUENCE_LIMIT {
            return Err(SubmitError::SequenceExhausted);
        }
        match self.serializer.serialize(producer_id, raw_buffer) {
            Ok(envelope) => Ok(self.queue.enqueue(envelope)),
            Err(e) => Err(SubmitError::Frame(e)),
        }
    }

    /// The fragments of the next queued envelope, in write order; `None`
    /// when the queue is empty.
    pub fn next_fragments(&mut self) -> (r: Option<Vec<Fragment>>)
        requires
            old(self).wf(),
        ensures
            final(self).wf(),
            final(self).lifecycle == old(self).lifecycle,
            final(self).publisher == old(self).publisher,
            old(self).queue.contents().len() == 0 <==> r is None,
            old(self).queue.contents().len() > 0 ==> {
                let head = old(self).queue.contents()[0];
                let m = old(self).publisher.spec_max_message_size();
                let f = r->Some_0;
                &&& final(self).queue.contents() == old(self).queue.contents().subrange(
                    1,
                    old(self).queue.contents().len() as int,
                )
                &&& r is Some
                &&& f@.len() == fragment_count_for(head.payload@.len(), m)
                &&& forall|i: int|
                    0 <= i < f@.len() ==> {
                        &&& (#[trigger] f@[i]).producer_id == head.producer_id
                        &&& f@[i].sequence_number == head.sequence_number
                        &&& f@[i].fragment_index == i
                        &&& f@[i].fragment_count == f@.len()
                        &&& f@[i].bytes@ == piece(head.payload@, m, i as nat)
                    }
            },
    {
        match self.queue.dequeue() {
            Some(envelope) => Some(self.publisher.prepare(&envelope)),
            None => None,
        }
    }
}

} // verus!
