//! The state machine that coordinates start, stop and faults of a session.
//! It decides; the caller performs the actions it returns and reports back.

use vstd::prelude::*;
use crate::error::TerminalError;

verus! {

#[derive(Debug, Clone, Copy, PartialEq, Eq, Structural)]
pub enum LifecycleState {
    Idle,
    Starting,
    Running,
    Stopping,
    Stopped,
    Faulted,
}

/// What the stages report to the lifecycle.
#[derive(Debug, Clone, Copy, PartialEq, Eq, Structural)]
pub enum LifecycleEvent {
    /// The caller asks the session to start.
    Start,
    /// Queue, publisher and subscriber were initialized.
    Initialized,
    /// Initialization failed.
    InitFailed(TerminalError),
    /// A stage reported a session-terminal error.
    Fatal(TerminalError),
    /// The caller asks the session to stop.
    Stop,
    /// The producer reached the end of its stream.
    EndOfStream,
    /// Teardown (drain queue, close publisher, close subscriber) finished.
    TeardownComplete,
}

/// What the caller must do next.
#[derive(Debug, Clone, Copy, PartialEq, Eq, Structural)]
pub enum LifecycleAction {
    /// Nothing.
    Continue,
    /// Initialize queue, publisher and subscriber.
    Initialize,
    /// Stop accepting input, then drain the queue and close publisher and subscriber.
    Teardown,
    /// Teardown is done: report the terminal error to the caller, once.
    ReportFault(TerminalError),
    /// The event does not apply in the current state and was ignored.
    Ignored,
}

/// The session's lifecycle: its state, the terminal error that faulted it,
/// and whether that error has been reported.
#[derive(Debug, Clone, Copy, PartialEq, Eq, Structural)]
pub struct PipelineLifecycle {
    pub state: LifecycleState,
    pub fault: Option<TerminalError>,
    pub reported: bool,
}

/// The lifecycle after `event`, and the action it asks for.
pub open spec fn step(lc: PipelineLifecycle, event: LifecycleEvent) -> (
    PipelineLifecycle,
    LifecycleAction,
) {
    match (lc.state, event) {
        (LifecycleState::Idle, LifecycleEvent::Start) => (
            PipelineLifecycle { state: LifecycleState::Starting, ..lc },
            LifecycleAction::Initialize,
        ),
        (LifecycleState::Starting, LifecycleEvent::Initialized) => (
            PipelineLifecycle { state: LifecycleState::Running, ..lc },
            LifecycleAction::Continue,
        ),
        (LifecycleState::Starting, LifecycleEvent::InitFailed(e)) => (
            PipelineLifecycle { state: LifecycleState::Faulted, fault: Some(e), reported: false },
            LifecycleAction::Teardown,
        ),
        (LifecycleState::Running, LifecycleEvent::Fatal(e)) => (
            PipelineLifecycle { state: LifecycleState::Faulted, fault: Some(e), reported: false },
            LifecycleAction::Teardown,
        ),
        (LifecycleState::Running, LifecycleEvent::Stop) => (
            PipelineLifecycle { state: LifecycleState::Stopping, ..lc },
            LifecycleAction::Teardown,
        ),
        (LifecycleState::Running, LifecycleEvent::EndOfStream) => (
            PipelineLifecycle { state: LifecycleState::Stopping, ..lc },
            LifecycleAction::Teardown,
        ),
        (LifecycleState::Stopping, LifecycleEvent::TeardownComplete) => (
            PipelineLifecycle { state: LifecycleState::Stopped, ..lc },
            LifecycleAction::Continue,
        ),
        (LifecycleState::Faulted, LifecycleEvent::TeardownComplete) => {
            if !lc.reported && lc.fault is Some {
                (
                    PipelineLifecycle { reported: true, ..lc },
                    LifecycleAction::ReportFault(lc.fault->Some_0),
                )
            } else {
                (lc, LifecycleAction::Ignored)
            }
        },
        _ => (lc, LifecycleAction::Ignored),
    }
}

impl PipelineLifecycle {
    /// Faulted exactly when a fault is recorded; reported only once faulted.
    pub open spec fn wf(&self) -> bool {
        &&& (self.state == LifecycleState::Faulted <==> self.fault is Some)
        &&& self.reported ==> self.state == LifecycleState::Faulted
    }

    pub fn new() -> (lc: Self)
        ensures
            lc.wf(),
            lc.state == LifecycleState::Idle,
            lc.fault is None,
            !lc.reported,
    {
        PipelineLifecycle { state: LifecycleState::Idle, fault: None, reported: false }
    }

    /// Applies `event` and returns the action the caller must perform.
    pub fn handle(&mut self, event: LifecycleEvent) -> (r: LifecycleAction)
        requires
            old(self).wf(),
        ensures
            final(self).wf(),
            (*final(self), r) == step(*old(self), event),
    {
        match (self.state, event) {
            (LifecycleState::Idle, LifecycleEvent::Start) => {
                self.state = LifecycleState::Starting;
                LifecycleAction::Initialize
            },
            (LifecycleState::Starting, LifecycleEvent::Initialized) => {
                self.state = LifecycleState::Running;
                LifecycleAction::Continue
            },
            (LifecycleState::Starting, LifecycleEvent::InitFailed(e)) => {
                self.state = LifecycleState::Faulted;
                self.fault = Some(e);
                self.reported = false;
                LifecycleAction::Teardown
            },
            (LifecycleState::Running, LifecycleEvent::Fatal(e)) => {
                self.state = LifecycleState::Faulted;
                self.fault = Some(e);
                self.reported = false;
                LifecycleAction::Teardown
            },
            (LifecycleState::Running, LifecycleEvent::Stop) => {
                self.state = LifecycleState::Stopping;
                LifecycleAction::Teardown
            },
            (LifecycleState::Running, LifecycleEvent::EndOfStream) => {
                self.state = LifecycleState::Stopping;
                LifecycleAction::Teardown
            },
            (LifecycleState::Stopping, LifecycleEvent::TeardownComplete) => {
                self.state = LifecycleState::Stopped;
                LifecycleAction::Continue
            },
            (LifecycleState::Faulted, LifecycleEvent::TeardownComplete) => {
                match (self.reported, self.fault) {
                    (false, Some(e)) => {
                        self.reported = true;
                        LifecycleAction::ReportFault(e)
                    },
                    _ => LifecycleAction::Ignored,
                }
            },
            _ => LifecycleAction::Ignored,
        }
    }

    /// The session's result once it has ended: `Ok` after a stop or end of
    /// stream, the terminal error after a fault has been torn down and
    /// reported; `None` while it is still live.
    pub fn outcome(&self) -> (r: Option<Result<(), TerminalError>>)
        requires
            self.wf(),
        ensures
            self.state == LifecycleState::Stopped ==> r == Some(Ok::<(), TerminalError>(())),
            self.state == LifecycleState::Faulted && self.reported ==> r == Some(
                Err::<(), TerminalError>(self.fault->Some_0),
            ),
            !(self.state == LifecycleState::Stopped || (self.state == LifecycleState::Faulted
                && self.reported)) ==> r is None,
    {
        match self.state {
            LifecycleState::Stopped => Some(Ok(())),
            LifecycleState::Faulted => {
                if self.reported {
                    match self.fault {
                        Some(e) => Some(Err(e)),
                        None => None,
                    }
                } else {
                    None
                }
            },
            _ => None,
        }
    }
}

/// A fault is reported at most once: after a report, further teardown
/// completions are ignored and the lifecycle stays as it is.
pub proof fn lemma_fault_reported_once(lc: PipelineLifecycle, event: LifecycleEvent)
    requires
        lc.wf(),
        lc.reported,
    ensures
        !(step(lc, event).1 is ReportFault),
        step(lc, event).0.reported,
{
}

/// Faulted and Stopped are terminal: no event leaves them.
pub proof fn lemma_terminal_states_stay(lc: PipelineLifecycle, event: LifecycleEvent)
    requires
        lc.state == LifecycleState::Stopped || lc.state == LifecycleState::Faulted,
    ensures
        step(lc, event).0.state == lc.state,
{
}

} // verus!
