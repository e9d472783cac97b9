//! The sending side: envelopes become fragments written in index order, and
//! write failures are classified by the session's reliability policy.

use vstd::prelude::*;
use crate::config::{BridgeConfig, Reliability, FRAGMENT_HEADER_SIZE};
use crate::envelope::{FrameEnvelope, saturating_increment};
use crate::error::{FatalError, Stage, TerminalError, TransportError};
use crate::fragment::{Fragment, fragment_count_for, fragment_frame, piece};

verus! {

/// Turns envelopes into the fragments to write, and accounts for the writes.
pub struct TransportPublisher {
    reliability: Reliability,
    max_message_size: usize,
    published: u64,
    failed: u64,
}

impl TransportPublisher {
    pub closed spec fn wf(&self) -> bool {
        self.max_message_size > 0
    }

    pub closed spec fn spec_reliability(&self) -> Reliability {
        self.reliability
    }

    pub closed spec fn spec_max_message_size(&self) -> nat {
        self.max_message_size as nat
    }

    pub closed spec fn published_count(&self) -> nat {
        self.published as nat
    }

    pub closed spec fn failed_count(&self) -> nat {
        self.failed as nat
    }

    pub fn new(reliability: Reliability, max_message_size: usize) -> (s: Self)
        requires
            max_message_size > 0,
        ensures
            s.wf(),
            s.spec_reliability() == reliability,
            s.spec_max_message_size() == max_message_size,
            s.published_count() == 0,
            s.failed_count() == 0,
    {
        TransportPublisher { reliability, max_message_size, published: 0, failed: 0 }
    }

    pub fn from_config(config: &BridgeConfig) -> (s: Self)
        requires
            config.is_valid(),
        ensures
            s.wf(),
            s.spec_reliability() == config.reliability,
            s.spec_max_message_size() == config.fragment_size - FRAGMENT_HEADER_SIZE,
            s.published_count() == 0,
            s.failed_count() == 0,
    {
        TransportPublisher::new(config.reliability, config.max_message_size())
    }

    /// The fragments to write for `envelope`, in the order they must be written.
    pub fn prepare(&self, envelope: &FrameEnvelope) -> (r: Vec<Fragment>)
        requires
            self.wf(),
        ensures
            r@.len() == fragment_count_for(envelope.payload@.len(), self.spec_max_message_size()),
            forall|i: int|
                0 <= i < r@.len() ==> {
                    &&& (#[trigger] r@[i]).producer_id == envelope.producer_id
                    &&& r@[i].sequence_number == envelope.sequence_number
                    &&& r@[i].fragment_index == i
                    &&& r@[i].fragment_count == r@.len()
                    &&& r@[i].bytes@ == piece(
                        envelope.payload@,
                        self.spec_max_message_size(),
                        i as nat,
                    )
                },
    {
        fragment_frame(envelope, self.max_message_size)
    }

    /// Accounts for the writes of one frame: `written` of its `total`
    /// fragments were accepted by the transport, which stops at the first
    /// refusal. The frame is published only if all were.
    pub fn complete(&mut self, written: usize, total: usize) -> (r: Result<(), TransportError>)
        requires
            old(self).wf(),
            written <= total,
        ensures
            final(self).wf(),
            final(self).spec_reliability() == old(self).spec_reliability(),
            final(self).spec_max_message_size() == old(self).spec_max_message_size(),
            written == total ==> r is Ok && final(self).published_count() == if old(
                self,
            ).published_count() < u64::MAX {
                old(self).published_count() + 1
            } else {
                old(self).published_count()
            } && final(self).failed_count() == old(self).failed_count(),
            written < total ==> r == Err::<(), TransportError>(TransportError::WriteFailed)
                && final(self).failed_count() == if old(self).failed_count() < u64::MAX {
                old(self).failed_count() + 1
            } else {
                old(self).failed_count()
            } && final(self).published_count() == old(self).published_count(),
    {
        if written == total {
            self.published = saturating_increment(self.published);
            Ok(())
        } else {
            self.failed = saturating_increment(self.failed);
            Err(TransportError::WriteFailed)
        }
    }

    /// What a failed write means for the session: under best effort the
    /// frame is dropped and the session goes on; under the reliable policy
    /// the failure is terminal.
    pub fn escalation(&self, error: TransportError) -> (r: Option<TerminalError>)
        ensures
            self.spec_reliability() == Reliability::BestEffort ==> r is None,
            self.spec_reliability() == Reliability::Reliable ==> r == Some(
                TerminalError { stage: Stage::Publisher, error: FatalError::WriteFailed },
            ),
    {
        match self.reliability {
            Reliability::BestEffort => None,
            Reliability::Reliable => match error {
                TransportError::WriteFailed => Some(
                    TerminalError { stage: Stage::Publisher, error: FatalError::WriteFailed },
                ),
            },
        }
    }

    pub fn reliability(&self) -> (r: Reliability)
        ensures
            r == self.spec_reliability(),
    {
        self.reliability
    }

    pub fn max_message_size(&self) -> (r: usize)
        ensures
            r == self.spec_max_message_size(),
    {
        self.max_message_size
    }

    /// How many frames were written whole.
    pub fn published(&self) -> (r: u64)
        ensures
            r == self.published_count(),
    {
        self.published
    }

    /// How many frames had a write refused.
    pub fn failed(&self) -> (r: u64)
        ensures
            r == self.failed_count(),
    {
        self.failed
    }
}

} // verus!
