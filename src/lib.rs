//! A frame transport bridge: it turns a stream of raw media buffers into
//! publish/subscribe messages with bounded memory, a defined delivery order
//! and graceful degradation, and reassembles the stream on the receiving side.

pub mod config;
pub mod envelope;
pub mod error;
pub mod fragment;
pub mod lifecycle;
pub mod publisher;
pub mod queue;
pub mod reassembly;
pub mod session;
pub mod table;
