//! A recording with Process Monitor: the calls that start it, follow it and stop
//! it run side by side, and each of them may end first.

use vstd::prelude::*;

verus! {

/// What happens in a recording.
#[derive(Debug, Clone, Copy, PartialEq, Eq, Structural)]
pub enum SessionEvent {
    /// The call that records has ended.
    RecordEnded,
    /// The call that waits for the recording to run has ended.
    WaitEnded { success: bool },
    /// The recording is to stop.
    StopRequested,
    /// The call that stops the recording has ended.
    TerminateEnded,
}

/// What is to be done about it.
#[derive(Debug, Clone, Copy, PartialEq, Eq, Structural)]
pub enum SessionAction {
    /// Nothing but to go on.
    GoOn,
    /// Tell that the recording runs.
    SignalStarted,
    /// Call for the recording to stop.
    Terminate,
    /// Give up, for the recording does not run.
    Fail,
}

/// How far a recording has come.
#[derive(Debug, Clone, Copy, PartialEq, Eq, Structural)]
pub struct RecordingSession {
    /// The call that records has ended.
    pub record_ended: bool,
    /// The recording was seen to run.
    pub started: bool,
    /// The recording was asked to stop, and there is nothing more to do about
    /// it.
    pub stopped: bool,
}

/// The recording after an event, and what is to be done. Only waiting for the
/// recording has to succeed, and a recording that has ended need not be stopped.
pub open spec fn after_event(session: RecordingSession, event: SessionEvent) -> (
    RecordingSession,
    SessionAction,
) {
    match event {
        SessionEvent::RecordEnded => (
            RecordingSession { record_ended: true, ..session },
            SessionAction::GoOn,
        ),
        SessionEvent::WaitEnded { success } => if success {
            (RecordingSession { started: true, ..session }, SessionAction::SignalStarted)
        } else {
            (session, SessionAction::Fail)
        },
        SessionEvent::StopRequested => if session.record_ended {
            (RecordingSession { stopped: true, ..session }, SessionAction::GoOn)
        } else {
            (session, SessionAction::Terminate)
        },
        SessionEvent::TerminateEnded => (
            RecordingSession { stopped: true, ..session },
            SessionAction::GoOn,
        ),
    }
}

impl RecordingSession {
    /// A recording that is about to start.
    pub fn new() -> (r: RecordingSession)
        ensures
            r == (RecordingSession { record_ended: false, started: false, stopped: false }),
    {
        RecordingSession { record_ended: false, started: false, stopped: false }
    }

    /// Takes in an event; tells what is to be done.
    pub fn step(&mut self, event: SessionEvent) -> (r: SessionAction)
        ensures
            (*final(self), r) == after_event(*old(self), event),
    {
        match event {
            SessionEvent::RecordEnded => {
                self.record_ended = true;
                SessionAction::GoOn
            },
            SessionEvent::WaitEnded { success } => if success {
                self.started = true;
                SessionAction::SignalStarted
            } else {
                SessionAction::Fail
            },
            SessionEvent::StopRequested => if self.record_ended {
                self.stopped = true;
                SessionAction::GoOn
            } else {
                SessionAction::Terminate
            },
            SessionEvent::TerminateEnded => {
                self.stopped = true;
                SessionAction::GoOn
            },
        }
    }

    /// Tells whether the log of the recording can be read: it ran, it was asked
    /// to stop, and it has ended.
    pub fn is_complete(&self) -> (r: bool)
        ensures
            r == (self.record_ended && self.started && self.stopped),
    {
        self.record_ended && self.started && self.stopped
    }
}

} // verus!
