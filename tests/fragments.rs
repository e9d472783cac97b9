use voda::envelope::FrameEnvelope;
use voda::fragment::{fragment_frame, Fragment};
use voda::reassembly::{assemble_slots, TransportSubscriber};

fn payload(n: usize) -> Vec<u8> {
    (0..n).map(|i| (i % 251) as u8).collect()
}

fn frame(seq: u32, n: usize) -> FrameEnvelope {
    FrameEnvelope { producer_id: 8, sequence_number: seq, payload: payload(n) }
}

fn subscriber() -> TransportSubscriber {
    TransportSubscriber::new(8, 1000, 64)
}

#[test]
fn splits_2500_bytes_into_three() {
    let f = fragment_frame(&frame(0, 2500), 1000);
    let sizes: Vec<usize> = f.iter().map(|x| x.bytes.len()).collect();
    assert_eq!(sizes, vec![1000, 1000, 500]);
    for (i, x) in f.iter().enumerate() {
        assert_eq!(x.fragment_index, i as u64);
        assert_eq!(x.fragment_count, 3);
        assert_eq!(x.sequence_number, 0);
        assert_eq!(x.producer_id, 8);
    }
    assert_eq!(f[2].bytes, payload(2500)[2000..].to_vec());
}

#[test]
fn reassembles_out_of_order_fragments() {
    let original = frame(0, 2500);
    let mut f = fragment_frame(&original, 1000);
    let mut sub = subscriber();
    let second = f.remove(1);
    let third = f.remove(1);
    let first = f.remove(0);
    assert!(sub.on_fragment_received(first, 1).is_none());
    assert!(sub.on_fragment_received(third, 2).is_none());
    let done = sub.on_fragment_received(second, 3).expect("frame completes");
    assert_eq!(done.payload.len(), 2500);
    assert_eq!(done.payload, original.payload);
    assert_eq!(done.sequence_number, 0);
    assert_eq!(sub.pending_len(), 0);
}

#[test]
fn fragment_counts_are_ceilings() {
    assert_eq!(fragment_frame(&frame(0, 1000), 1000).len(), 1);
    assert_eq!(fragment_frame(&frame(0, 1001), 1000).len(), 2);
    assert_eq!(fragment_frame(&frame(0, 3000), 1000).len(), 3);
    assert_eq!(fragment_frame(&frame(0, 7), 3).len(), 3);
    let small = fragment_frame(&frame(0, 10), 1000);
    assert_eq!(small.len(), 1);
    assert_eq!(small[0].bytes, payload(10));
}

#[test]
fn empty_payload_is_one_empty_fragment() {
    let f = fragment_frame(&frame(0, 0), 16);
    assert_eq!(f.len(), 1);
    assert!(f[0].bytes.is_empty());
    assert_eq!(f[0].fragment_count, 1);
}

#[test]
fn round_trip_for_several_sizes() {
    for (n, m) in [(1usize, 1usize), (5, 2), (64, 8), (65, 8), (999, 100)] {
        let original = frame(n as u32, n);
        let f = fragment_frame(&original, m);
        let mut sub = subscriber();
        let mut out = None;
        for x in f.into_iter().rev() {
            out = sub.on_fragment_received(x, 0);
        }
        assert_eq!(out.expect("complete").payload, original.payload);
    }
}

#[test]
fn stale_frame_is_discarded() {
    let mut sub = subscriber();
    let five = fragment_frame(&frame(5, 10), 100).remove(0);
    let three = fragment_frame(&frame(3, 10), 100).remove(0);
    let got = sub.on_fragment_received(five, 1).expect("frame 5 is delivered");
    assert_eq!(got.sequence_number, 5);
    assert!(sub.on_fragment_received(three, 2).is_none());
    assert_eq!(sub.stale_discards(), 1);
    assert_eq!(sub.delivered(), 1);
    assert_eq!(sub.next_expected_sequence(8), 6);
}

#[test]
fn interleaved_frames_never_regress() {
    let mut sub = subscriber();
    let mut one = fragment_frame(&frame(1, 20), 10);
    let mut two = fragment_frame(&frame(2, 20), 10);
    assert!(sub.on_fragment_received(two.remove(0), 1).is_none());
    assert!(sub.on_fragment_received(one.remove(0), 2).is_none());
    let got = sub.on_fragment_received(two.remove(0), 3).expect("frame 2 completes");
    assert_eq!(got.sequence_number, 2);
    // Frame 1 completes late and must not be delivered after frame 2.
    assert!(sub.on_fragment_received(one.remove(0), 4).is_none());
    assert_eq!(sub.delivered(), 1);
}

#[test]
fn timed_out_frame_is_never_delivered() {
    let mut sub = TransportSubscriber::new(8, 100, 64);
    let original = frame(0, 20);
    let f = fragment_frame(&original, 10);
    assert!(sub.on_fragment_received(f[0].clone(), 0).is_none());
    assert_eq!(sub.pending_len(), 1);
    // The missing fragment arrives after the timeout.
    assert!(sub.on_fragment_received(f[1].clone(), 200).is_none());
    assert_eq!(sub.evictions(), 1);
    assert_eq!(sub.pending_len(), 0);
    // Even a full resend is refused.
    assert!(sub.on_fragment_received(f[0].clone(), 201).is_none());
    assert!(sub.on_fragment_received(f[1].clone(), 202).is_none());
    assert_eq!(sub.delivered(), 0);
}

#[test]
fn entry_within_timeout_completes() {
    let mut sub = TransportSubscriber::new(8, 100, 64);
    let f = fragment_frame(&frame(0, 20), 10);
    assert!(sub.on_fragment_received(f[0].clone(), 0).is_none());
    assert!(sub.on_fragment_received(f[1].clone(), 100).is_some());
}

#[test]
fn evict_expired_reports_count() {
    let mut sub = TransportSubscriber::new(8, 10, 64);
    let a = fragment_frame(&frame(0, 20), 10);
    let b = fragment_frame(&frame(1, 20), 10);
    sub.on_fragment_received(a[0].clone(), 0);
    sub.on_fragment_received(b[0].clone(), 5);
    assert_eq!(sub.evict_expired(12), 1);
    assert_eq!(sub.pending_len(), 1);
    assert_eq!(sub.evict_expired(100), 1);
    assert_eq!(sub.clock(), 100);
    // The clock never runs backwards.
    assert_eq!(sub.evict_expired(3), 0);
    assert_eq!(sub.clock(), 100);
}

#[test]
fn full_table_evicts_oldest() {
    let mut sub = TransportSubscriber::new(1, 1000, 64);
    let a = fragment_frame(&frame(1, 20), 10);
    let b = fragment_frame(&frame(2, 20), 10);
    sub.on_fragment_received(a[0].clone(), 0);
    sub.on_fragment_received(b[0].clone(), 1);
    assert_eq!(sub.evictions(), 1);
    assert_eq!(sub.pending_len(), 1);
    assert!(sub.on_fragment_received(a[1].clone(), 2).is_none());
    assert_eq!(sub.on_fragment_received(b[1].clone(), 3).map(|e| e.sequence_number), Some(2));
}

#[test]
fn duplicate_fragment_is_ignored() {
    let mut sub = subscriber();
    let original = frame(0, 20);
    let f = fragment_frame(&original, 10);
    assert!(sub.on_fragment_received(f[0].clone(), 0).is_none());
    assert!(sub.on_fragment_received(f[0].clone(), 1).is_none());
    let got = sub.on_fragment_received(f[1].clone(), 2).expect("complete");
    assert_eq!(got.payload, original.payload);
    assert_eq!(sub.delivered(), 1);
}

#[test]
fn malformed_fragments_are_rejected() {
    let mut sub = TransportSubscriber::new(8, 1000, 4);
    let mk = |index: u64, count: u64| Fragment {
        producer_id: 1,
        sequence_number: 0,
        fragment_index: index,
        fragment_count: count,
        bytes: vec![1],
    };
    assert!(sub.on_fragment_received(mk(0, 0), 0).is_none());
    assert!(sub.on_fragment_received(mk(2, 2), 0).is_none());
    assert!(sub.on_fragment_received(mk(0, 5), 0).is_none());
    assert_eq!(sub.rejected(), 3);
    assert!(sub.on_fragment_received(mk(0, 2), 0).is_none());
    assert!(sub.on_fragment_received(mk(1, 3), 0).is_none());
    assert_eq!(sub.rejected(), 4);
    assert_eq!(sub.on_fragment_received(mk(1, 2), 0).map(|e| e.payload), Some(vec![1, 1]));
}

#[test]
fn assembles_only_complete_slots() {
    assert_eq!(assemble_slots(&vec![Some(vec![1, 2]), Some(vec![]), Some(vec![3])]), Some(vec![1, 2, 3]));
    assert_eq!(assemble_slots(&vec![Some(vec![1]), None]), None);
    assert_eq!(assemble_slots(&vec![]), Some(vec![]));
}
