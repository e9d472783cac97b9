use voda::config::{BridgeConfig, ConfigError, Reliability};
use voda::error::{ErrorKind, FatalError, Stage, TerminalError, TransportError};
use voda::lifecycle::{LifecycleAction, LifecycleEvent, LifecycleState, PipelineLifecycle};
use voda::publisher::TransportPublisher;
use voda::queue::{DropPolicy, EnqueueOutcome};
use voda::session::{Session, SubmitError};
use voda::envelope::FrameEnvelope;

fn config() -> BridgeConfig {
    BridgeConfig {
        fragment_size: 60000,
        receive_buffer_size: 60000 * 46,
        reliability: Reliability::Reliable,
        queue_capacity: 3,
        drop_policy: DropPolicy::DropOldest,
        reassembly_timeout: 500,
        max_pending_frames: 4,
    }
}

#[test]
fn config_errors() {
    assert_eq!(config().validate(), Ok(()));
    let mut c = config();
    c.fragment_size = 24;
    assert_eq!(c.validate(), Err(ConfigError::FragmentSizeTooSmall));
    let mut c = config();
    c.receive_buffer_size = 59999;
    assert_eq!(c.validate(), Err(ConfigError::ReceiveBufferTooSmall));
    let mut c = config();
    c.queue_capacity = 0;
    assert_eq!(c.validate(), Err(ConfigError::ZeroQueueCapacity));
    let mut c = config();
    c.max_pending_frames = 0;
    assert_eq!(c.validate(), Err(ConfigError::ZeroPendingFrames));
}

#[test]
fn config_sizes() {
    assert_eq!(config().max_message_size(), 59976);
    assert_eq!(config().max_fragments_per_frame(), 46);
}

#[test]
fn publisher_accounts_for_writes() {
    let mut p = TransportPublisher::new(Reliability::BestEffort, 1000);
    assert_eq!(p.complete(3, 3), Ok(()));
    assert_eq!(p.complete(1, 3), Err(TransportError::WriteFailed));
    assert_eq!(p.published(), 1);
    assert_eq!(p.failed(), 1);
    assert_eq!(p.escalation(TransportError::WriteFailed), None);
    let r = TransportPublisher::new(Reliability::Reliable, 1000);
    assert_eq!(
        r.escalation(TransportError::WriteFailed),
        Some(TerminalError { stage: Stage::Publisher, error: FatalError::WriteFailed })
    );
}

#[test]
fn publisher_prepares_fragments() {
    let p = TransportPublisher::new(Reliability::BestEffort, 1000);
    let e = FrameEnvelope { producer_id: 1, sequence_number: 4, payload: vec![0; 2500] };
    let f = p.prepare(&e);
    assert_eq!(f.len(), 3);
    assert_eq!(f[2].bytes.len(), 500);
    assert_eq!(p.max_message_size(), 1000);
    assert_eq!(p.reliability(), Reliability::BestEffort);
}

#[test]
fn lifecycle_stop_path() {
    let mut lc = PipelineLifecycle::new();
    assert_eq!(lc.handle(LifecycleEvent::Stop), LifecycleAction::Ignored);
    assert_eq!(lc.handle(LifecycleEvent::Start), LifecycleAction::Initialize);
    assert_eq!(lc.state, LifecycleState::Starting);
    assert_eq!(lc.handle(LifecycleEvent::Initialized), LifecycleAction::Continue);
    assert_eq!(lc.state, LifecycleState::Running);
    assert_eq!(lc.outcome(), None);
    assert_eq!(lc.handle(LifecycleEvent::Stop), LifecycleAction::Teardown);
    assert_eq!(lc.state, LifecycleState::Stopping);
    assert_eq!(lc.handle(LifecycleEvent::TeardownComplete), LifecycleAction::Continue);
    assert_eq!(lc.state, LifecycleState::Stopped);
    assert_eq!(lc.outcome(), Some(Ok(())));
    assert_eq!(lc.handle(LifecycleEvent::Start), LifecycleAction::Ignored);
}

#[test]
fn lifecycle_end_of_stream_path() {
    let mut lc = PipelineLifecycle::new();
    lc.handle(LifecycleEvent::Start);
    lc.handle(LifecycleEvent::Initialized);
    assert_eq!(lc.handle(LifecycleEvent::EndOfStream), LifecycleAction::Teardown);
    assert_eq!(lc.handle(LifecycleEvent::TeardownComplete), LifecycleAction::Continue);
    assert_eq!(lc.outcome(), Some(Ok(())));
}

#[test]
fn lifecycle_fault_is_reported_once_after_teardown() {
    let e = TerminalError { stage: Stage::Producer, error: FatalError::ProducerFailure };
    let mut lc = PipelineLifecycle::new();
    lc.handle(LifecycleEvent::Start);
    lc.handle(LifecycleEvent::Initialized);
    assert_eq!(lc.handle(LifecycleEvent::Fatal(e)), LifecycleAction::Teardown);
    assert_eq!(lc.state, LifecycleState::Faulted);
    assert_eq!(lc.outcome(), None);
    assert_eq!(lc.handle(LifecycleEvent::TeardownComplete), LifecycleAction::ReportFault(e));
    assert_eq!(lc.outcome(), Some(Err(e)));
    assert_eq!(lc.handle(LifecycleEvent::TeardownComplete), LifecycleAction::Ignored);
    assert_eq!(lc.handle(LifecycleEvent::Start), LifecycleAction::Ignored);
}

#[test]
fn lifecycle_init_failure_faults() {
    let e = TerminalError { stage: Stage::Publisher, error: FatalError::TransportClosed };
    let mut lc = PipelineLifecycle::new();
    lc.handle(LifecycleEvent::Start);
    assert_eq!(lc.handle(LifecycleEvent::InitFailed(e)), LifecycleAction::Teardown);
    assert_eq!(lc.fault, Some(e));
    assert_eq!(lc.handle(LifecycleEvent::TeardownComplete), LifecycleAction::ReportFault(e));
}

#[test]
fn session_accepts_input_only_while_running() {
    let mut s = Session::new(&config()).unwrap();
    assert_eq!(s.submit_frame(8, vec![1]).unwrap_err(), SubmitError::NotRunning);
    s.handle(LifecycleEvent::Start);
    s.handle(LifecycleEvent::Initialized);
    assert_eq!(s.submit_frame(8, vec![]).unwrap_err(), SubmitError::Frame(ErrorKind::EmptyFrame));
    for i in 0..4u8 {
        s.submit_frame(8, vec![i; 10]).unwrap();
    }
    assert!(matches!(s.submit_frame(8, vec![9]).unwrap(), EnqueueOutcome::Evicted(_)));
    assert_eq!(s.queue.sequence_numbers(), vec![2, 3, 4]);
    let f = s.next_fragments().unwrap();
    assert_eq!(f.len(), 1);
    assert_eq!(f[0].sequence_number, 2);
    s.handle(LifecycleEvent::Stop);
    assert_eq!(s.submit_frame(8, vec![1]).unwrap_err(), SubmitError::NotRunning);
}

#[test]
fn session_refuses_bad_config() {
    let mut c = config();
    c.queue_capacity = 0;
    assert_eq!(Session::new(&c).err(), Some(ConfigError::ZeroQueueCapacity));
}
