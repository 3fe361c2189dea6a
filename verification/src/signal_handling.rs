//! From signals to decisions. A handler only records that a signal arrived;
//! a polling thread later takes what is pending and acts on it once, however
//! often the signal was delivered in between.

use crate::formats::{optional_event_view, Event, EventView};
use vstd::prelude::*;

verus! {

/// The signals that the supervisor handles.
#[derive(Clone, Copy, Debug, PartialEq, Eq, Structural)]
pub enum Signal {
    /// `SIGTERM`: terminate.
    Term,
    /// `SIGINT`: terminate.
    Int,
    /// `SIGCHLD`: a child changed state.
    Chld,
}

/// The signals that have arrived and have not been acted upon yet.
#[derive(Clone, Copy, Debug, PartialEq, Eq, Structural)]
pub struct PendingSignals {
    pub terminate: bool,
    pub child: bool,
}

/// What the polling thread does with the pending signals.
#[derive(Debug, PartialEq, Eq)]
pub struct Dispatch {
    /// The event to publish, if termination was asked for.
    pub event: Option<Event>,
    /// Whether to wake the reaper.
    pub wake_reaper: bool,
}

impl PendingSignals {
    /// Nothing is pending.
    pub fn new() -> (pending: PendingSignals)
        ensures
            !pending.terminate,
            !pending.child,
    {
        PendingSignals { terminate: false, child: false }
    }

    /// What is pending once `signal` has arrived as well.
    pub open spec fn with(self, signal: Signal) -> PendingSignals {
        match signal {
            Signal::Term | Signal::Int => PendingSignals { terminate: true, ..self },
            Signal::Chld => PendingSignals { child: true, ..self },
        }
    }

    /// Records the arrival of a signal. Arrivals of the same kind collapse.
    pub fn raise(&mut self, signal: Signal)
        ensures
            *final(self) == old(self).with(signal),
    {
        match signal {
            Signal::Term | Signal::Int => {
                self.terminate = true;
            },
            Signal::Chld => {
                self.child = true;
            },
        }
    }

    /// Takes what is pending: a shutdown request if termination was asked
    /// for, a wakeup of the reaper if a child changed state. Nothing is
    /// pending afterwards.
    pub fn take(&mut self) -> (dispatch: Dispatch)
        ensures
            !final(self).terminate,
            !final(self).child,
            optional_event_view(dispatch.event) == (if old(self).terminate {
                Some(EventView::ShutdownRequested)
            } else {
                None
            }),
            dispatch.wake_reaper == old(self).child,
    {
        let event = if self.terminate {
            Some(Event::ShutdownRequested)
        } else {
            None
        };
        let wake_reaper = self.child;
        self.terminate = false;
        self.child = false;
        Dispatch { event, wake_reaper }
    }
}

/// How sending a signal to a child went.
#[derive(Clone, Copy, Debug, PartialEq, Eq, Structural)]
pub enum KillOutcome {
    /// The signal was sent.
    Delivered,
    /// There is no such process: it has exited, and the reaper may have
    /// collected it already.
    NoSuchProcess,
    /// Sending failed for another reason.
    Failed,
}

impl KillOutcome {
    /// Whether the outcome is worth a report. A process that is gone is not:
    /// the signal raced with its exit.
    pub open spec fn spec_is_error(self) -> bool {
        self is Failed
    }

    #[verifier::when_used_as_spec(spec_is_error)]
    pub fn is_error(self) -> (b: bool)
        ensures
            b == self.spec_is_error(),
    {
        match self {
            KillOutcome::Failed => true,
            _ => false,
        }
    }
}

} // verus!
