//! Kill escalation: a service that is still being killed after the kill
//! timeout is sent a signal that it cannot ignore.
//!
//! The timeout is ten seconds, counted from the first observation of the
//! service in its `InKilling` status. Each process is escalated at most once.

use crate::formats::Pid;
use crate::repository::{RepoView, ServiceRepository};
use crate::service_handler::HandlerView;
use vstd::prelude::*;

verus! {

/// How long a service may stay in `InKilling` before the kill is escalated,
/// in milliseconds.
pub const KILL_TIMEOUT_MS: u64 = 10_000;

/// What the scheduler remembers of one service between observations.
#[derive(Clone, Copy, Debug, PartialEq, Eq, Structural)]
pub enum KillWatch {
    /// The service is not being killed.
    Idle,
    /// The service has been seen in `InKilling` since this time, in
    /// milliseconds.
    Waiting(u64),
    /// The kill has been escalated.
    Escalated,
}

impl HandlerView {
    /// The process that is being killed, if the handler is in `InKilling`
    /// and holds one.
    pub open spec fn being_killed(self) -> Option<Pid> {
        if self.status is InKilling {
            self.pid
        } else {
            None
        }
    }
}

impl KillWatch {
    /// The watch after a handler was observed at the time `now` with
    /// `being_killed` as the process that it is killing.
    pub open spec fn next(self, being_killed: Option<Pid>, now: u64) -> KillWatch {
        if being_killed is Some {
            match self {
                KillWatch::Idle => KillWatch::Waiting(now),
                KillWatch::Waiting(since) => if now - since >= KILL_TIMEOUT_MS {
                    KillWatch::Escalated
                } else {
                    self
                },
                KillWatch::Escalated => self,
            }
        } else {
            KillWatch::Idle
        }
    }

    /// The process to escalate against when a handler is observed at the
    /// time `now`: the one being killed, once the timeout has passed.
    pub open spec fn escalates(self, being_killed: Option<Pid>, now: u64) -> Option<Pid> {
        match self {
            KillWatch::Waiting(since) => if now - since >= KILL_TIMEOUT_MS {
                being_killed
            } else {
                None
            },
            _ => None,
        }
    }

    /// Observes a handler: returns the watch to keep and the process to
    /// escalate against, if any.
    pub fn observe(self, being_killed: Option<Pid>, now: u64) -> (seen: (KillWatch, Option<Pid>))
        ensures
            seen.0 == self.next(being_killed, now),
            seen.1 == self.escalates(being_killed, now),
    {
        match being_killed {
            Some(pid) => match self {
                KillWatch::Idle => (KillWatch::Waiting(now), None),
                KillWatch::Waiting(since) => if now >= since && now - since >= KILL_TIMEOUT_MS {
                    (KillWatch::Escalated, Some(pid))
                } else {
                    (self, None)
                },
                KillWatch::Escalated => (self, None),
            },
            None => (KillWatch::Idle, None),
        }
    }
}

/// The kill watches of a scheduler, one per handler.
#[derive(Debug, PartialEq, Eq)]
pub struct Escalation {
    watches: Vec<KillWatch>,
}

impl View for Escalation {
    type V = Seq<KillWatch>;

    closed spec fn view(&self) -> Seq<KillWatch> {
        self.watches@
    }
}

/// The watch that is kept for the handler at `i`: idle where none is kept yet.
pub open spec fn watch_at(watches: Seq<KillWatch>, i: int) -> KillWatch {
    if 0 <= i < watches.len() {
        watches[i]
    } else {
        KillWatch::Idle
    }
}

/// The watches after the table was observed at the time `now`.
pub open spec fn watches_after(watches: Seq<KillWatch>, repo: RepoView, now: u64) -> Seq<KillWatch> {
    Seq::new(repo.handlers.len(), |i: int| watch_at(watches, i).next(repo.handlers[i].being_killed(), now))
}

/// The processes to escalate against when the table is observed at the time
/// `now`, in handler order.
pub open spec fn escalated(watches: Seq<KillWatch>, repo: RepoView, now: u64) -> Seq<Pid> {
    Seq::new(
        repo.handlers.len(),
        |i: int| watch_at(watches, i).escalates(repo.handlers[i].being_killed(), now),
    ).filter_map(|pid: Option<Pid>| pid)
}

impl Escalation {
    /// Nothing is watched yet.
    pub fn new() -> (escalation: Escalation)
        ensures
            escalation@ == Seq::<KillWatch>::empty(),
    {
        Escalation { watches: Vec::new() }
    }

    /// Observes the table at the time `now`, in milliseconds of a clock that
    /// does not go back, and returns the processes that have been in
    /// `InKilling` for the whole kill timeout: they are to be killed for good.
    pub fn observe(&mut self, repo: &ServiceRepository, now: u64) -> (kills: Vec<Pid>)
        ensures
            final(self)@ == watches_after(old(self)@, repo@, now),
            kills@ == escalated(old(self)@, repo@, now),
    {
        let ghost before = self@;
        let ghost asked = Seq::new(
            repo@.handlers.len(),
            |i: int| watch_at(before, i).escalates(repo@.handlers[i].being_killed(), now),
        );
        let ghost itself = |pid: Option<Pid>| pid;
        let n = repo.len();
        let mut watches: Vec<KillWatch> = Vec::new();
        let mut kills: Vec<Pid> = Vec::new();
        let mut i: usize = 0;
        while i < n
            invariant
                i <= n,
                n == repo@.handlers.len(),
                before == self@,
                asked == Seq::new(
                    repo@.handlers.len(),
                    |i: int| watch_at(before, i).escalates(repo@.handlers[i].being_killed(), now),
                ),
                itself == (|pid: Option<Pid>| pid),
                watches@.len() == i,
                forall|j: int|
                    0 <= j < i ==> watches@[j] == watch_at(before, j).next(
                        repo@.handlers[j].being_killed(),
                        now,
                    ),
                kills@ == asked.take(i as int).filter_map(itself),
            decreases n - i,
        {
            proof {
                asked.lemma_filter_map_take_succ(itself, i as int);
            }
            let watch = if i < self.watches.len() {
                self.watches[i]
            } else {
                KillWatch::Idle
            };
            let being_killed = match repo.handler(i) {
                Some(handler) => if handler.is_in_killing() {
                    handler.pid()
                } else {
                    None
                },
                None => None,
            };
            let (next, kill) = watch.observe(being_killed, now);
            watches.push(next);
            if let Some(pid) = kill {
                kills.push(pid);
            }
            i += 1;
        }
        self.watches = watches;
        proof {
            assert(asked.take(i as int) =~= asked);
            assert(self@ =~= watches_after(before, repo@, now));
        }
        kills
    }
}

} // verus!
