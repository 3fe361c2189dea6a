//! Process reaping: turning what waiting for children reports into events.
//!
//! Every dead descendant is collected, not only the services: an exit of a
//! process that no service holds yields no event, and reaping goes on.

use crate::formats::{event_views, optional_event_view, Event, EventView, Pid};
use crate::repository::{RepoView, ServiceRepository};
use vstd::prelude::*;

verus! {

/// What one non-blocking wait for any child reports.
#[derive(Clone, Copy, Debug, PartialEq, Eq, Structural)]
pub enum WaitOutcome {
    /// The process exited with this code.
    Exited(Pid, i32),
    /// The process was killed by the signal of this number.
    Signaled(Pid, u8),
    /// There are children, and none of them has changed state.
    StillAlive,
    /// There is no child to wait for.
    NoChildren,
    /// Waiting failed for another reason.
    Failed,
    /// A child changed state without ending.
    Other,
}

/// The exit code that stands for death by a signal: 128 plus its number.
pub open spec fn signal_exit_code(signal: u8) -> i32 {
    (128 + signal) as i32
}

impl WaitOutcome {
    /// Whether reaping goes on after this outcome. It stops when no child is
    /// left to collect right now, and when waiting failed.
    pub open spec fn spec_proceeds(self) -> bool {
        self is Exited || self is Signaled || self is Other
    }

    #[verifier::when_used_as_spec(spec_proceeds)]
    pub fn proceeds(self) -> (b: bool)
        ensures
            b == self.spec_proceeds(),
    {
        match self {
            WaitOutcome::Exited(_, _) | WaitOutcome::Signaled(_, _) | WaitOutcome::Other => true,
            _ => false,
        }
    }

    /// The process that ended and the exit code that stands for how it ended.
    pub open spec fn spec_ended(self) -> Option<(Pid, i32)> {
        match self {
            WaitOutcome::Exited(pid, code) => Some((pid, code)),
            WaitOutcome::Signaled(pid, signal) => Some((pid, signal_exit_code(signal))),
            _ => None,
        }
    }

    #[verifier::when_used_as_spec(spec_ended)]
    pub fn ended(self) -> (end: Option<(Pid, i32)>)
        ensures
            end == self.spec_ended(),
    {
        match self {
            WaitOutcome::Exited(pid, code) => Some((pid, code)),
            WaitOutcome::Signaled(pid, signal) => {
                let code: i32 = 128 + signal as i32;
                Some((pid, code))
            },
            _ => None,
        }
    }
}

/// The event that an outcome gives rise to: the exit of the service that
/// holds the process, if a service does.
pub open spec fn reaped_event(repo: RepoView, outcome: WaitOutcome) -> Option<EventView> {
    match outcome.spec_ended() {
        Some((pid, code)) => match repo.service_by_pid(pid) {
            Some(name) => Some(EventView::ServiceExited(name, code)),
            None => None,
        },
        None => None,
    }
}

/// The events that a batch of at most `budget` waits gives rise to: outcomes
/// are taken in order until the budget is spent or one stops the batch.
pub open spec fn reaped_events(repo: RepoView, outcomes: Seq<WaitOutcome>, budget: nat) -> Seq<
    EventView,
>
    decreases outcomes.len(),
{
    if budget == 0 || outcomes.len() == 0 {
        Seq::empty()
    } else {
        let head = match reaped_event(repo, outcomes[0]) {
            Some(event) => seq![event],
            None => Seq::empty(),
        };
        if outcomes[0].spec_proceeds() {
            head + reaped_events(repo, outcomes.drop_first(), (budget - 1) as nat)
        } else {
            head
        }
    }
}

/// What to do after one wait.
#[derive(Debug, PartialEq, Eq)]
pub struct ReapStep {
    /// The event to publish, if the outcome concerns a service.
    pub event: Option<Event>,
    /// Whether to wait again in this batch.
    pub proceed: bool,
}

/// Decides what follows from one wait: which event to publish, and whether
/// to go on.
pub fn step(repo: &ServiceRepository, outcome: WaitOutcome) -> (next: ReapStep)
    ensures
        optional_event_view(next.event) == reaped_event(repo@, outcome),
        next.proceed == outcome.spec_proceeds(),
{
    let event = match outcome.ended() {
        Some((pid, code)) => match repo.get_service_by_pid(pid) {
            Some(name) => Some(Event::new_service_exited(name, code)),
            None => None,
        },
        None => None,
    };
    ReapStep { event, proceed: outcome.proceeds() }
}

/// Reaps up to `max_iterations` of the given outcomes and returns the events
/// to publish, in order.
pub fn run(repo: &ServiceRepository, outcomes: &Vec<WaitOutcome>, max_iterations: u32) -> (events:
    Vec<Event>)
    ensures
        event_views(events@) == reaped_events(repo@, outcomes@, max_iterations as nat),
{
    let mut events: Vec<Event> = Vec::new();
    let mut i: usize = 0;
    let mut left: u32 = max_iterations;
    assert(outcomes@.skip(0) =~= outcomes@);
    assert(event_views(events@) =~= Seq::<EventView>::empty());
    while left > 0 && i < outcomes.len()
        invariant
            i <= outcomes.len(),
            event_views(events@) + reaped_events(repo@, outcomes@.skip(i as int), left as nat)
                == reaped_events(repo@, outcomes@, max_iterations as nat),
        decreases outcomes.len() - i,
    {
        let ghost found = event_views(events@);
        let ghost rest = outcomes@.skip(i as int);
        assert(rest[0] == outcomes[i as int]);
        assert(rest.drop_first() =~= outcomes@.skip(i + 1));
        let next = step(repo, outcomes[i]);
        if let Some(event) = next.event {
            events.push(event);
            assert(event_views(events@) =~= found + seq![event@]);
        }
        if !next.proceed {
            proof {
                assert(event_views(events@) =~= event_views(events@) + Seq::<EventView>::empty());
            }
            return events;
        }
        proof {
            let head = match reaped_event(repo@, rest[0]) {
                Some(event) => seq![event],
                None => Seq::<EventView>::empty(),
            };
            let tail = reaped_events(repo@, outcomes@.skip(i + 1), (left - 1) as nat);
            assert(found + (head + tail) =~= (found + head) + tail);
        }
        i += 1;
        left -= 1;
    }
    assert(event_views(events@) + Seq::<EventView>::empty() =~= event_views(events@));
    events
}

} // verus!
