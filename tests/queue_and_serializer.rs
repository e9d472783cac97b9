use voda::envelope::{saturating_increment, FrameEnvelope, FrameSerializer};
use voda::error::ErrorKind;
use voda::queue::{BoundedFrameQueue, DropPolicy, EnqueueOutcome};

fn env(seq: u32) -> FrameEnvelope {
    FrameEnvelope { producer_id: 8, sequence_number: seq, payload: vec![seq as u8, 1, 2] }
}

#[test]
fn drop_oldest_keeps_last_three() {
    let mut q = BoundedFrameQueue::new(3, DropPolicy::DropOldest);
    for s in 1..=3u32 {
        assert!(matches!(q.enqueue(env(s)), EnqueueOutcome::Accepted));
    }
    match q.enqueue(env(4)) {
        EnqueueOutcome::Evicted(e) => assert_eq!(e.sequence_number, 1),
        other => panic!("unexpected outcome {:?}", other),
    }
    assert_eq!(q.sequence_numbers(), vec![2, 3, 4]);
    assert_eq!(q.len(), 3);
    assert_eq!(q.dropped(), 1);
}

#[test]
fn drop_oldest_long_run_keeps_most_recent_in_order() {
    let mut q = BoundedFrameQueue::new(4, DropPolicy::DropOldest);
    for s in 1..=10u32 {
        q.enqueue(env(s));
        assert!(q.len() <= 4);
    }
    assert_eq!(q.sequence_numbers(), vec![7, 8, 9, 10]);
    assert_eq!(q.dropped(), 6);
}

#[test]
fn drop_newest_rejects_incoming() {
    let mut q = BoundedFrameQueue::new(2, DropPolicy::DropNewest);
    q.enqueue(env(1));
    q.enqueue(env(2));
    match q.enqueue(env(3)) {
        EnqueueOutcome::Rejected(e) => assert_eq!(e.sequence_number, 3),
        other => panic!("unexpected outcome {:?}", other),
    }
    assert_eq!(q.sequence_numbers(), vec![1, 2]);
    assert_eq!(q.dropped(), 1);
}

#[test]
fn block_hands_envelope_back() {
    let mut q = BoundedFrameQueue::new(1, DropPolicy::Block);
    q.enqueue(env(1));
    match q.enqueue(env(2)) {
        EnqueueOutcome::WouldBlock(e) => assert_eq!(e.sequence_number, 2),
        other => panic!("unexpected outcome {:?}", other),
    }
    assert_eq!(q.sequence_numbers(), vec![1]);
    assert_eq!(q.dropped(), 0);
    assert_eq!(q.capacity(), 1);
    assert_eq!(q.policy(), DropPolicy::Block);
}

#[test]
fn dequeue_is_first_in_first_out() {
    let mut q = BoundedFrameQueue::new(3, DropPolicy::DropOldest);
    assert!(q.dequeue().is_none());
    assert!(q.is_empty());
    q.enqueue(env(5));
    q.enqueue(env(6));
    assert_eq!(q.dequeue().map(|e| e.sequence_number), Some(5));
    assert_eq!(q.dequeue().map(|e| e.sequence_number), Some(6));
    assert!(q.dequeue().is_none());
}

#[test]
fn serializer_numbers_each_producer_from_zero() {
    let mut s = FrameSerializer::new();
    let a0 = s.serialize(1, vec![1, 2, 3]).unwrap();
    let a1 = s.serialize(1, vec![4]).unwrap();
    let b0 = s.serialize(2, vec![9]).unwrap();
    assert_eq!((a0.producer_id, a0.sequence_number), (1, 0));
    assert_eq!(a0.payload, vec![1, 2, 3]);
    assert_eq!(a1.sequence_number, 1);
    assert_eq!((b0.producer_id, b0.sequence_number), (2, 0));
    assert_eq!(s.next_sequence_number(1), 2);
    assert_eq!(s.next_sequence_number(3), 0);
}

#[test]
fn serializer_refuses_empty_frame() {
    let mut s = FrameSerializer::new();
    assert_eq!(s.serialize(1, Vec::new()).unwrap_err(), ErrorKind::EmptyFrame);
    assert_eq!(s.empty_frames(), 1);
    assert_eq!(s.next_sequence_number(1), 0);
    assert_eq!(s.serialize(1, vec![7]).unwrap().sequence_number, 0);
}

#[test]
fn counters_saturate() {
    assert_eq!(saturating_increment(5), 6);
    assert_eq!(saturating_increment(u64::MAX), u64::MAX);
}

#[test]
fn outcomes_report_acceptance_and_overflow() {
    let mut q = BoundedFrameQueue::new(1, DropPolicy::DropOldest);
    let first = q.enqueue(env(1));
    assert!(first.accepted());
    assert_eq!(first.overflow(), None);
    let second = q.enqueue(env(2));
    assert!(second.accepted());
    assert_eq!(second.overflow(), Some(ErrorKind::QueueOverflow));
    let mut r = BoundedFrameQueue::new(1, DropPolicy::DropNewest);
    r.enqueue(env(1));
    let refused = r.enqueue(env(2));
    assert!(!refused.accepted());
    assert_eq!(refused.overflow(), Some(ErrorKind::QueueOverflow));
    let mut b = BoundedFrameQueue::new(1, DropPolicy::Block);
    b.enqueue(env(1));
    let blocked = b.enqueue(env(2));
    assert!(!blocked.accepted());
    assert_eq!(blocked.overflow(), None);
}
