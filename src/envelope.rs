//! The wire-level unit of data and the serializer that creates it.

use vstd::prelude::*;
use crate::error::ErrorKind;
use crate::table::SequenceTable;

verus! {

/// One complete raw media buffer, tagged with its source and its position
/// in that source's stream.
#[derive(Debug, Clone)]
pub struct FrameEnvelope {
    pub producer_id: u32,
    pub sequence_number: u32,
    pub payload: Vec<u8>,
}

} // verus!

verus! {

/// Adds one to a metric, staying at the top of its range.
pub fn saturating_increment(n: u64) -> (r: u64)
    ensures
        r == if n < u64::MAX { n + 1 } else { n as int },
{
    if n < u64::MAX {
        n + 1
    } else {
        n
    }
}

/// Turns raw buffers into envelopes, numbering each producer's frames from 0.
pub struct FrameSerializer {
    counters: SequenceTable,
    empty_frames: u64,
}

impl FrameSerializer {
    pub closed spec fn wf(&self) -> bool {
        self.counters.wf()
    }

    /// The sequence number that the next frame of `producer_id` will carry.
    pub closed spec fn next_sequence(&self, producer_id: u32) -> nat {
        self.counters.value(producer_id)
    }

    /// How many empty buffers were refused.
    pub closed spec fn empty_frame_count(&self) -> nat {
        self.empty_frames as nat
    }

    pub fn new() -> (s: Self)
        ensures
            s.wf(),
            forall|p: u32| s.next_sequence(p) == 0,
            s.empty_frame_count() == 0,
    {
        FrameSerializer { counters: SequenceTable::new(), empty_frames: 0 }
    }

    /// The sequence number that the next frame of `producer_id` will carry;
    /// `SEQUENCE_LIMIT` once the producer's numbers are used up.
    pub fn next_sequence_number(&self, producer_id: u32) -> (r: u64)
        requires
            self.wf(),
        ensures
            r == self.next_sequence(producer_id),
    {
        self.counters.get(producer_id)
    }

    /// How many empty buffers were refused.
    pub fn empty_frames(&self) -> (r: u64)
        ensures
            r == self.empty_frame_count(),
    {
        self.empty_frames
    }

    /// Wraps `raw_buffer` into the next envelope of `producer_id`. An empty
    /// buffer is refused and counted, and no number is used up.
    pub fn serialize(&mut self, producer_id: u32, raw_buffer: Vec<u8>) -> (r: Result<
        FrameEnvelope,
        ErrorKind,
    >)
        requires
            old(self).wf(),
            raw_buffer@.len() > 0 ==> old(self).next_sequence(producer_id) <= u32::MAX,
        ensures
            final(self).wf(),
            raw_buffer@.len() == 0 ==> {
                &&& r == Err::<FrameEnvelope, ErrorKind>(ErrorKind::EmptyFrame)
                &&& forall|p: u32| final(self).next_sequence(p) == old(self).next_sequence(p)
                &&& final(self).empty_frame_count() == if old(self).empty_frame_count() < u64::MAX {
                    old(self).empty_frame_count() + 1
                } else {
                    old(self).empty_frame_count()
                }
            },
            raw_buffer@.len() > 0 ==> {
                &&& r is Ok
                &&& r->Ok_0.producer_id == producer_id
                &&& r->Ok_0.sequence_number == old(self).next_sequence(producer_id)
                &&& r->Ok_0.payload@ == raw_buffer@
                &&& final(self).next_sequence(producer_id) == old(self).next_sequence(producer_id) + 1
                &&& forall|p: u32|
                    p != producer_id ==> final(self).next_sequence(p) == old(self).next_sequence(p)
                &&& final(self).empty_frame_count() == old(self).empty_frame_count()
            },
    {
        if raw_buffer.len() == 0 {
            self.empty_frames = saturating_increment(self.empty_frames);
            return Err(ErrorKind::EmptyFrame);
        }
        let seq = self.counters.get(producer_id);
        self.counters.set(producer_id, seq + 1);
        Ok(FrameEnvelope { producer_id, sequence_number: seq as u32, payload: raw_buffer })
    }
}

} // verus!
