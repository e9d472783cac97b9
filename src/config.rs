//! The bridge's configuration surface and its validation.

use vstd::prelude::*;
use crate::queue::DropPolicy;

verus! {

/// The transport's delivery guarantee for a session.
#[derive(Debug, Clone, Copy, PartialEq, Eq, Structural)]
pub enum Reliability {
    /// Frames may be lost under congestion; no retransmission.
    BestEffort,
    /// The transport delivers eventually or reports failure.
    Reliable,
}

/// Bytes of each transport message taken by a fragment's header: producer
/// and sequence number (4 bytes each), fragment index and count (8 bytes each).
pub const FRAGMENT_HEADER_SIZE: usize = 24;

/// The recognized options.
#[derive(Debug, Clone, Copy)]
pub struct BridgeConfig {
    /// Bytes of one transport message, header included.
    pub fragment_size: usize,
    /// Bytes of receive buffering the transport provisions.
    pub receive_buffer_size: usize,
    pub reliability: Reliability,
    pub queue_capacity: usize,
    pub drop_policy: DropPolicy,
    /// How long an incomplete frame may collect fragments, in clock units.
    pub reassembly_timeout: u64,
    pub max_pending_frames: usize,
}

/// Why a configuration was refused.
#[derive(Debug, Clone, Copy, PartialEq, Eq, Structural)]
pub enum ConfigError {
    /// `fragment_size` leaves no room after the fragment header.
    FragmentSizeTooSmall,
    /// `receive_buffer_size` cannot hold one whole message.
    ReceiveBufferTooSmall,
    /// `queue_capacity` is 0.
    ZeroQueueCapacity,
    /// `max_pending_frames` is 0.
    ZeroPendingFrames,
}

impl BridgeConfig {
    pub open spec fn is_valid(&self) -> bool {
        &&& self.fragment_size > FRAGMENT_HEADER_SIZE
        &&& self.receive_buffer_size >= self.fragment_size
        &&& self.queue_capacity > 0
        &&& self.max_pending_frames > 0
    }

    /// Checks the options in the order of the fields and reports the first
    /// that is out of range.
    pub fn validate(&self) -> (r: Result<(), ConfigError>)
        ensures
            r is Ok <==> self.is_valid(),
            r == Err::<(), ConfigError>(ConfigError::FragmentSizeTooSmall) <==> self.fragment_size
                <= FRAGMENT_HEADER_SIZE,
            r == Err::<(), ConfigError>(ConfigError::ReceiveBufferTooSmall) <==> (self.fragment_size
                > FRAGMENT_HEADER_SIZE && self.receive_buffer_size < self.fragment_size),
            r == Err::<(), ConfigError>(ConfigError::ZeroQueueCapacity) <==> (self.fragment_size
                > FRAGMENT_HEADER_SIZE && self.receive_buffer_size >= self.fragment_size
                && self.queue_capacity == 0),
            r == Err::<(), ConfigError>(ConfigError::ZeroPendingFrames) <==> (self.fragment_size
                > FRAGMENT_HEADER_SIZE && self.receive_buffer_size >= self.fragment_size
                && self.queue_capacity > 0 && self.max_pending_frames == 0),
    {
        if self.fragment_size <= FRAGMENT_HEADER_SIZE {
            Err(ConfigError::FragmentSizeTooSmall)
        } else if self.receive_buffer_size < self.fragment_size {
            Err(ConfigError::ReceiveBufferTooSmall)
        } else if self.queue_capacity == 0 {
            Err(ConfigError::ZeroQueueCapacity)
        } else if self.max_pending_frames == 0 {
            Err(ConfigError::ZeroPendingFrames)
        } else {
            Ok(())
        }
    }

    /// Payload bytes that fit in one transport message.
    pub fn max_message_size(&self) -> (r: usize)
        requires
            self.is_valid(),
        ensures
            r == self.fragment_size - FRAGMENT_HEADER_SIZE,
            r > 0,
    {
        self.fragment_size - FRAGMENT_HEADER_SIZE
    }

    /// The most fragments of one frame that the receive buffer can hold.
    pub fn max_fragments_per_frame(&self) -> (r: usize)
        requires
            self.is_valid(),
        ensures
            r == self.receive_buffer_size / self.fragment_size,
            r > 0,
    {
        proof {
            vstd::arithmetic::div_mod::lemma_div_is_ordered(
                self.fragment_size as int,
                self.receive_buffer_size as int,
                self.fragment_size as int,
            );
            vstd::arithmetic::div_mod::lemma_div_by_self(self.fragment_size as int);
        }
        self.receive_buffer_size / self.fragment_size
    }
}

} // verus!
