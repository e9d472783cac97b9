//! The error taxonomy of the bridge.

use vstd::prelude::*;

verus! {

/// Per-frame conditions that are absorbed locally and only counted.
#[derive(Debug, Clone, Copy, PartialEq, Eq, Structural)]
pub enum ErrorKind {
    /// Serialization received a zero-length buffer; the frame is skipped.
    EmptyFrame,
    /// The bounded queue dropped an envelope; informational only.
    QueueOverflow,
}

/// A failure reported by the transport when publishing.
#[derive(Debug, Clone, Copy, PartialEq, Eq, Structural)]
pub enum TransportError {
    /// The transport rejected a write.
    WriteFailed,
}

/// Why an incomplete frame was given up by the subscriber.
#[derive(Debug, Clone, Copy, PartialEq, Eq, Structural)]
pub enum ReassemblyError {
    /// The frame aged out or the reassembly table was full.
    Evicted,
}

/// Session-terminal conditions.
#[derive(Debug, Clone, Copy, PartialEq, Eq, Structural)]
pub enum FatalError {
    /// The producer failed or could not be started.
    ProducerFailure,
    /// The transport was closed underneath the session.
    TransportClosed,
    /// A write under the reliable policy failed after the transport's own retries.
    WriteFailed,
}

/// The stage of the pipeline that reported a condition.
#[derive(Debug, Clone, Copy, PartialEq, Eq, Structural)]
pub enum Stage {
    Producer,
    Publisher,
    Subscriber,
    Sink,
}

/// A terminal error together with the stage it originated in.
#[derive(Debug, Clone, Copy, PartialEq, Eq, Structural)]
pub struct TerminalError {
    pub stage: Stage,
    pub error: FatalError,
}

} // verus!
