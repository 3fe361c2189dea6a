//! The scheduler: what the supervisor decides on every tick of its main loop.

use crate::config::{ExitStatus, HorustConfig};
use crate::escalation::{escalated, watches_after, Escalation, KillWatch};
use crate::formats::{event_views, service_views, text_view, Event, EventView, Pid, Service};
use crate::loader::{contributed, fetch_services, loaded_views, LoadedFile};
use crate::repository::{RepoView, ServiceRepository};
use crate::service_handler::HandlerView;
use crate::validation::{is_first_fault, valid_services, validate, ValidationError};
use vstd::prelude::*;

verus! {

/// The supervisor: the table of its services and where they were loaded from.
#[derive(Debug, PartialEq, Eq)]
pub struct Horust {
    service_repository: ServiceRepository,
    services_dir: Option<String>,
    escalation: Escalation,
}

pub struct HorustView {
    pub repo: RepoView,
    pub services_dir: Option<Seq<char>>,
    /// What the scheduler remembers of the services that are being killed.
    pub watches: Seq<KillWatch>,
}

impl View for Horust {
    type V = HorustView;

    closed spec fn view(&self) -> HorustView {
        HorustView {
            repo: self.service_repository@,
            services_dir: text_view(self.services_dir),
            watches: self.escalation@,
        }
    }
}

/// What one tick asks of the outside world.
#[derive(Debug, PartialEq, Eq)]
pub struct TickPlan {
    /// The processes to send a termination signal to.
    pub signals: Vec<Pid>,
    /// The services to hand to the spawner.
    pub spawns: Vec<Service>,
    /// The events to publish.
    pub published: Vec<Event>,
    /// Whether every service has reached a terminal status, so that the main
    /// loop ends.
    pub finished: bool,
}

impl RepoView {
    /// Whether a tick has to stop everything: a shutdown has been requested
    /// and some handler is not terminal yet.
    pub open spec fn must_stop(self) -> bool {
        self.shutting_down && !self.all_terminal()
    }

    /// The table after the shutdown check of a tick.
    pub open spec fn stop_checked(self) -> RepoView {
        if self.must_stop() {
            self.stopped()
        } else {
            self
        }
    }

    /// Whether a tick has to request the shutdown itself: everything is
    /// terminal and nobody has asked yet.
    pub open spec fn must_conclude(self) -> bool {
        self.all_terminal() && !self.shutting_down
    }

    /// The table after the last step of a tick.
    pub open spec fn concluded(self) -> RepoView {
        if self.must_conclude() {
            self.fold(EventView::ShutdownRequested)
        } else {
            self
        }
    }

    /// The table after a whole tick: the pending events are folded, then
    /// everything is stopped if a shutdown is under way, then every runnable
    /// handler is scheduled, then the shutdown is requested if nothing is
    /// left to supervise.
    pub open spec fn ticked(self, events: Seq<EventView>) -> RepoView {
        self.fold_all(events).stop_checked().scheduled().concluded()
    }
}

impl Horust {
    /// Whether the table upholds its invariant.
    pub open spec fn wf(&self) -> bool {
        self@.repo.wf()
    }

    /// A supervisor for the given services, all of them waiting to start.
    pub fn new(services: Vec<Service>, services_dir: Option<String>) -> (horust: Horust)
        ensures
            horust@.repo == RepoView::fresh(service_views(services@)),
            horust@.services_dir == text_view(services_dir),
            horust@.watches == Seq::<KillWatch>::empty(),
            horust.wf(),
    {
        Horust {
            service_repository: ServiceRepository::new(services),
            services_dir,
            escalation: Escalation::new(),
        }
    }

    /// A supervisor for a single ad-hoc command.
    pub fn from_command(command: String) -> (horust: Horust)
        ensures
            horust@.repo == RepoView::fresh(seq![Service::spec_from_command(command@)]),
            horust@.services_dir is None,
            horust.wf(),
    {
        let mut services: Vec<Service> = Vec::new();
        services.push(Service::from_command(command));
        assert(service_views(services@) =~= seq![Service::spec_from_command(command@)]);
        Self::new(services, None)
    }

    /// A supervisor for the services that the files of a directory
    /// contribute, once they have been found valid.
    pub fn from_services_dir(path: String, files: Vec<LoadedFile>) -> (loaded: Result<
        Horust,
        ValidationError,
    >)
        ensures
            loaded is Ok <==> valid_services(contributed(loaded_views(files@))),
            match loaded {
                Ok(horust) => {
                    &&& horust@.repo == RepoView::fresh(contributed(loaded_views(files@)))
                    &&& horust@.services_dir == Some(path@)
                    &&& horust.wf()
                },
                Err(fault) => is_first_fault(contributed(loaded_views(files@)), fault),
            },
    {
        Self::from_services(fetch_services(files), path)
    }

    /// A supervisor for the given services, once they have been found valid.
    pub fn from_services(services: Vec<Service>, services_dir: String) -> (loaded: Result<
        Horust,
        ValidationError,
    >)
        ensures
            loaded is Ok <==> valid_services(service_views(services@)),
            match loaded {
                Ok(horust) => {
                    &&& horust@.repo == RepoView::fresh(service_views(services@))
                    &&& horust@.services_dir == Some(services_dir@)
                    &&& horust.wf()
                },
                Err(fault) => is_first_fault(service_views(services@), fault),
            },
    {
        match validate(services) {
            Ok(services) => Ok(Self::new(services, Some(services_dir))),
            Err(e) => Err(e),
        }
    }

    /// The table of handlers.
    pub fn repository(&self) -> (repo: &ServiceRepository)
        ensures
            repo@ == self@.repo,
    {
        &self.service_repository
    }

    /// Stops every service: running ones are to be sent a termination signal,
    /// ones that have not started never will.
    pub fn stop_all_services(&mut self) -> (plan: TickPlan)
        ensures
            final(self)@.repo == old(self)@.repo.stopped(),
            final(self)@.services_dir == old(self)@.services_dir,
            final(self)@.watches == old(self)@.watches,
            plan.signals@ == old(self)@.repo.stop_signals(),
            event_views(plan.published@) == old(self)@.repo.stop_events(),
            plan.spawns@.len() == 0,
            plan.finished == final(self)@.repo.all_terminal(),
            final(self).wf(),
    {
        let stop = self.service_repository.stop_all();
        let finished = self.service_repository.all_terminal();
        TickPlan { signals: stop.signals, spawns: Vec::new(), published: stop.published, finished }
    }

    /// Stops every service if a shutdown has been requested and some service
    /// is not terminal yet; does nothing otherwise.
    pub fn check_is_shutting_down(&mut self) -> (plan: TickPlan)
        ensures
            final(self)@.repo == old(self)@.repo.stop_checked(),
            final(self)@.services_dir == old(self)@.services_dir,
            final(self)@.watches == old(self)@.watches,
            plan.signals@ == (if old(self)@.repo.must_stop() {
                old(self)@.repo.stop_signals()
            } else {
                Seq::empty()
            }),
            event_views(plan.published@) == (if old(self)@.repo.must_stop() {
                old(self)@.repo.stop_events()
            } else {
                Seq::empty()
            }),
            plan.spawns@.len() == 0,
            plan.finished == final(self)@.repo.all_terminal(),
            final(self).wf(),
    {
        if self.service_repository.is_shutting_down() && !self.service_repository.all_terminal() {
            self.stop_all_services()
        } else {
            self.service_repository.upholds_invariant();
            let published: Vec<Event> = Vec::new();
            assert(event_views(published@) =~= Seq::<EventView>::empty());
            TickPlan {
                signals: Vec::new(),
                spawns: Vec::new(),
                published,
                finished: self.service_repository.all_terminal(),
            }
        }
    }

    /// One turn of the main loop.
    ///
    /// Folds the pending events, stops everything if a shutdown is under
    /// way, schedules every runnable service, and requests the shutdown
    /// itself once every service is terminal. The plan lists what the caller
    /// has to carry out: signals first, then spawns, and the events to
    /// publish in the order in which they were decided.
    pub fn tick(&mut self, events: Vec<Event>) -> (plan: TickPlan)
        ensures
            final(self)@.repo == old(self)@.repo.ticked(event_views(events@)),
            final(self)@.services_dir == old(self)@.services_dir,
            final(self)@.watches == old(self)@.watches,
            plan.signals@ == old(self)@.repo.signals_all(event_views(events@)) + (if old(
                self,
            )@.repo.fold_all(event_views(events@)).must_stop() {
                old(self)@.repo.fold_all(event_views(events@)).stop_signals()
            } else {
                Seq::empty()
            }),
            service_views(plan.spawns@) == old(self)@.repo.fold_all(
                event_views(events@),
            ).stop_checked().runnable().map_values(|h: HandlerView| h.service),
            event_views(plan.published@) == tick_events(old(self)@.repo.fold_all(event_views(events@))),
            plan.finished == old(self)@.repo.fold_all(
                event_views(events@),
            ).stop_checked().scheduled().all_terminal(),
            final(self).wf(),
    {
        let ghost folded = self@.repo.fold_all(event_views(events@));
        let mut signals = self.service_repository.ingest(events);
        let mut stop = self.check_is_shutting_down();
        signals.append(&mut stop.signals);
        let mut published = stop.published;
        let ghost stop_announced = event_views(published@);
        let mut spawn = self.service_repository.schedule();
        let ghost schedule_announced = event_views(spawn.published@);
        proof {
            lemma_event_views_add(published@, spawn.published@);
        }
        published.append(&mut spawn.published);
        let finished = self.service_repository.all_terminal();
        if finished && !self.service_repository.is_shutting_down() {
            let ghost announced = event_views(published@);
            let request = Event::ShutdownRequested;
            let more = self.service_repository.apply(&request);
            published.push(request);
            assert(event_views(published@) =~= announced.push(EventView::ShutdownRequested));
        }
        proof {
            assert(event_views(published@) =~= tick_events(folded));
        }
        TickPlan { signals, spawns: spawn.services, published, finished }
    }

    /// Escalates the kills that have taken too long. `now` is the time in
    /// milliseconds of a clock that does not go back. Returns the processes
    /// that have been in `InKilling` for the whole kill timeout since the
    /// scheduler first saw them so: they are to be killed for good.
    pub fn escalate(&mut self, now: u64) -> (kills: Vec<Pid>)
        ensures
            final(self)@.repo == old(self)@.repo,
            final(self)@.services_dir == old(self)@.services_dir,
            final(self)@.watches == watches_after(old(self)@.watches, old(self)@.repo, now),
            kills@ == escalated(old(self)@.watches, old(self)@.repo, now),
            final(self).wf(),
    {
        self.service_repository.upholds_invariant();
        self.escalation.observe(&self.service_repository, now)
    }

    /// Whether every service has reached a terminal status.
    pub fn all_finished(&self) -> (b: bool)
        ensures
            b == self@.repo.all_terminal(),
    {
        self.service_repository.all_terminal()
    }

    /// The exit status of the supervisor under the given options.
    pub fn exit_status(&self, config: &HorustConfig) -> (status: ExitStatus)
        ensures
            status == ExitStatus::spec_from_outcome(*config, self@.repo.any_finished_failed()),
    {
        ExitStatus::from_outcome(config, self.service_repository.any_finished_failed())
    }
}

/// The events that a tick publishes once the pending events are folded: the
/// status changes of stopping, if it stops; then those of scheduling; then
/// the shutdown request, if it concludes.
pub open spec fn tick_events(folded: RepoView) -> Seq<EventView> {
    (if folded.must_stop() {
        folded.stop_events()
    } else {
        Seq::empty()
    }) + folded.stop_checked().schedule_events() + (if folded.stop_checked().scheduled().must_conclude() {
        seq![EventView::ShutdownRequested]
    } else {
        Seq::empty()
    })
}

/// The views of two lists of events, one after the other.
pub proof fn lemma_event_views_add(first: Seq<Event>, second: Seq<Event>)
    ensures
        event_views(first + second) == event_views(first) + event_views(second),
{
    assert(event_views(first + second) =~= event_views(first) + event_views(second));
}

} // verus!
