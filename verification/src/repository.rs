//! The table of service handlers and the fold of events into it.

use crate::formats::{
    event_views, service_views, text_view, Event, EventView, Pid, Service, ServiceStatus,
    ServiceView,
};
use crate::service_handler::{HandlerView, ServiceHandler};
use vstd::prelude::*;

verus! {

/// The owned table of handlers, one per service, in declaration order.
#[derive(Debug, PartialEq, Eq)]
pub struct ServiceRepository {
    handlers: Vec<ServiceHandler>,
    shutting_down: bool,
}

pub struct RepoView {
    pub handlers: Seq<HandlerView>,
    pub shutting_down: bool,
}

impl RepoView {
    /// The table with which a supervisor starts: every service is in its
    /// initial state and no shutdown has been requested.
    pub open spec fn fresh(services: Seq<ServiceView>) -> RepoView {
        RepoView {
            handlers: services.map_values(|s: ServiceView| HandlerView::fresh(s)),
            shutting_down: false,
        }
    }

    /// Every handler upholds its invariant.
    pub open spec fn wf(self) -> bool {
        forall|i: int| 0 <= i < self.handlers.len() ==> (#[trigger] self.handlers[i]).wf()
    }

    /// The service definitions behind the handlers, in order.
    pub open spec fn services(self) -> Seq<ServiceView> {
        self.handlers.map_values(|h: HandlerView| h.service)
    }

    /// The table after one event: every handler folds the event, and a
    /// shutdown request is remembered.
    pub open spec fn fold(self, event: EventView) -> RepoView {
        RepoView {
            handlers: self.handlers.map_values(
                |h: HandlerView| h.fold(event, self.shutting_down),
            ),
            shutting_down: self.shutting_down || event is ShutdownRequested,
        }
    }

    /// The table after a run of events, folded in order.
    pub open spec fn fold_all(self, events: Seq<EventView>) -> RepoView
        decreases events.len(),
    {
        if events.len() == 0 {
            self
        } else {
            self.fold_all(events.drop_last()).fold(events.last())
        }
    }

    /// The processes that folding one event asks to terminate, in handler order.
    pub open spec fn signals(self, event: EventView) -> Seq<Pid> {
        self.handlers.filter_map(|h: HandlerView| h.signalled_by(event))
    }

    /// The processes that folding a run of events asks to terminate, in order.
    pub open spec fn signals_all(self, events: Seq<EventView>) -> Seq<Pid>
        decreases events.len(),
    {
        if events.len() == 0 {
            Seq::empty()
        } else {
            self.signals_all(events.drop_last()) + self.fold_all(events.drop_last()).signals(
                events.last(),
            )
        }
    }

    /// Whether some service of that name has reached a status that lets its
    /// successors start.
    pub open spec fn has_started(self, name: Seq<char>) -> bool {
        exists|j: int|
            0 <= j < self.handlers.len() && (#[trigger] self.handlers[j]).service.name == name
                && self.handlers[j].status.spec_lets_successors_start()
    }

    /// A handler can be started when it is in its initial state and every
    /// service it starts after has started.
    pub open spec fn is_runnable(self, handler: HandlerView) -> bool {
        &&& handler.status is Initial
        &&& forall|k: int|
            0 <= k < handler.service.start_after.len() ==> self.has_started(
                #[trigger] handler.service.start_after[k],
            )
    }

    /// The handlers that can be started, in order.
    pub open spec fn runnable(self) -> Seq<HandlerView> {
        self.handlers.filter(|h: HandlerView| self.is_runnable(h))
    }

    pub open spec fn is_any_running(self) -> bool {
        exists|i: int| 0 <= i < self.handlers.len() && (#[trigger] self.handlers[i]).status is Running
    }

    pub open spec fn all_terminal(self) -> bool {
        forall|i: int|
            0 <= i < self.handlers.len() ==> (#[trigger] self.handlers[i]).status.spec_is_terminal()
    }

    pub open spec fn any_finished_failed(self) -> bool {
        exists|i: int|
            0 <= i < self.handlers.len() && (#[trigger] self.handlers[i]).status is FinishedFailed
    }

    /// Whether the handler at `i` is the first one that holds `pid`.
    pub open spec fn is_first_holder(self, i: int, pid: Pid) -> bool {
        &&& 0 <= i < self.handlers.len()
        &&& self.handlers[i].pid == Some(pid)
        &&& forall|j: int| 0 <= j < i ==> (#[trigger] self.handlers[j]).pid != Some(pid)
    }

    /// Whether any handler holds `pid`.
    pub open spec fn holds_pid(self, pid: Pid) -> bool {
        exists|i: int| 0 <= i < self.handlers.len() && (#[trigger] self.handlers[i]).pid == Some(pid)
    }

    /// The name of the first service that holds `pid`.
    pub open spec fn service_by_pid(self, pid: Pid) -> Option<Seq<char>> {
        if exists|i: int| self.is_first_holder(i, pid) {
            Some(self.handlers[choose|i: int| self.is_first_holder(i, pid)].service.name)
        } else {
            None
        }
    }

    /// The table after the supervisor has decided to stop everything.
    pub open spec fn stopped(self) -> RepoView {
        RepoView { handlers: self.handlers.map_values(|h: HandlerView| h.stopped()), ..self }
    }

    /// The processes that stopping everything sends a termination signal to.
    pub open spec fn stop_signals(self) -> Seq<Pid> {
        self.handlers.filter_map(|h: HandlerView| h.signalled_by_stop())
    }

    /// The status changes that stopping everything announces.
    pub open spec fn stop_events(self) -> Seq<EventView> {
        self.handlers.filter_map(|h: HandlerView| h.announced_by_stop())
    }

    /// The status changes that hand every runnable handler to the spawner.
    pub open spec fn schedule_events(self) -> Seq<EventView> {
        self.runnable().map_values(
            |h: HandlerView| EventView::StatusChanged(h.service.name, ServiceStatus::ToBeRun),
        )
    }

    /// The table after every runnable handler has been handed to the spawner.
    pub open spec fn scheduled(self) -> RepoView {
        self.fold_all(self.schedule_events())
    }
}

impl View for ServiceRepository {
    type V = RepoView;

    closed spec fn view(&self) -> RepoView {
        RepoView {
            handlers: self.handlers@.map_values(|h: ServiceHandler| h@),
            shutting_down: self.shutting_down,
        }
    }
}

impl Clone for ServiceRepository {
    /// A replica of the table.
    fn clone(&self) -> (replica: Self)
        ensures
            replica@ == self@,
    {
        let mut handlers: Vec<ServiceHandler> = Vec::new();
        let mut i: usize = 0;
        while i < self.handlers.len()
            invariant
                i <= self.handlers.len(),
                handlers.len() == i,
                forall|j: int| 0 <= j < i ==> handlers[j]@ == self.handlers[j]@,
            decreases self.handlers.len() - i,
        {
            handlers.push(self.handlers[i].clone());
            i += 1;
        }
        proof {
            use_type_invariant(self);
            assert(handlers@.map_values(|h: ServiceHandler| h@) =~= self@.handlers);
        }
        ServiceRepository { handlers, shutting_down: self.shutting_down }
    }
}

/// Dropping the last of a prefix gives the prefix that is one shorter.
pub proof fn lemma_take_step<A>(s: Seq<A>, i: int)
    requires
        0 <= i < s.len(),
    ensures
        s.take(i + 1).drop_last() == s.take(i),
        s.take(i + 1).last() == s[i],
{
    assert(s.take(i + 1).drop_last() =~= s.take(i));
}

impl ServiceRepository {
    /// Every table upholds the invariant of its view.
    #[verifier::type_invariant]
    closed spec fn inv(&self) -> bool {
        self@.wf()
    }

    /// Whether every handler upholds its invariant.
    pub open spec fn wf(&self) -> bool {
        self@.wf()
    }

    /// Tells the caller that this table upholds its invariant, as every one
    /// does. Nothing happens at run time.
    pub fn upholds_invariant(&self)
        ensures
            self.wf(),
    {
        proof {
            use_type_invariant(self);
        }
    }

    /// A table with one fresh handler per service.
    pub fn new(services: Vec<Service>) -> (repo: ServiceRepository)
        ensures
            repo@ == RepoView::fresh(service_views(services@)),
            repo.wf(),
    {
        let mut handlers: Vec<ServiceHandler> = Vec::new();
        let mut i: usize = 0;
        while i < services.len()
            invariant
                i <= services.len(),
                handlers.len() == i,
                forall|j: int| 0 <= j < i ==> handlers[j]@ == HandlerView::fresh(services[j]@),
            decreases services.len() - i,
        {
            handlers.push(ServiceHandler::new(services[i].clone()));
            i += 1;
        }
        let repo = ServiceRepository { handlers, shutting_down: false };
        assert(repo@.handlers =~= RepoView::fresh(service_views(services@)).handlers);
        repo
    }

    /// The number of handlers.
    pub fn len(&self) -> (n: usize)
        ensures
            n == self@.handlers.len(),
    {
        self.handlers.len()
    }

    /// The handler at `index`, if there is one.
    pub fn handler(&self, index: usize) -> (handler: Option<&ServiceHandler>)
        ensures
            match handler {
                Some(h) => index < self@.handlers.len() && h@ == self@.handlers[index as int],
                None => index >= self@.handlers.len(),
            },
    {
        if index < self.handlers.len() {
            Some(&self.handlers[index])
        } else {
            None
        }
    }

    pub fn is_shutting_down(&self) -> (b: bool)
        ensures
            b == self@.shutting_down,
    {
        self.shutting_down
    }

    /// Folds one event into the table and returns the processes that have to
    /// be sent a termination signal because of it.
    pub fn apply(&mut self, event: &Event) -> (signals: Vec<Pid>)
        ensures
            final(self)@ == old(self)@.fold(event@),
            signals@ == old(self)@.signals(event@),
            final(self).wf(),
    {
        proof {
            use_type_invariant(&*self);
        }
        let shutting_down = self.shutting_down;
        let ghost before = self@;
        let ghost asks = |h: HandlerView| h.signalled_by(event@);
        let mut signals: Vec<Pid> = Vec::new();
        let mut handlers: Vec<ServiceHandler> = Vec::new();
        core::mem::swap(&mut handlers, &mut self.handlers);
        let mut i: usize = 0;
        while i < handlers.len()
            invariant
                i <= handlers.len(),
                handlers.len() == before.handlers.len(),
                before.shutting_down == shutting_down,
                asks == (|h: HandlerView| h.signalled_by(event@)),
                forall|j: int|
                    0 <= j < i ==> (#[trigger] handlers[j])@ == before.handlers[j].fold(
                        event@,
                        shutting_down,
                    ),
                forall|j: int| 0 <= j < i ==> (#[trigger] handlers[j]).wf(),
                forall|j: int|
                    i <= j < handlers.len() ==> (#[trigger] handlers[j])@ == before.handlers[j],
                signals@ == before.handlers.take(i as int).filter_map(asks),
            decreases handlers.len() - i,
        {
            proof {
                before.handlers.lemma_filter_map_take_succ(asks, i as int);
            }
            let signal = handlers[i].apply(event, shutting_down);
            if let Some(pid) = signal {
                signals.push(pid);
            }
            i += 1;
        }
        proof {
            assert(before.handlers.take(i as int) =~= before.handlers);
            assert(handlers@.map_values(|h: ServiceHandler| h@) =~= before.fold(event@).handlers);
        }
        self.handlers = handlers;
        if let Event::ShutdownRequested = event {
            self.shutting_down = true;
        }
        signals
    }

    /// Folds a run of events into the table, in order, and returns the
    /// processes that have to be sent a termination signal because of them.
    pub fn ingest(&mut self, events: Vec<Event>) -> (signals: Vec<Pid>)
        ensures
            final(self)@ == old(self)@.fold_all(event_views(events@)),
            signals@ == old(self)@.signals_all(event_views(events@)),
            final(self).wf(),
    {
        proof {
            use_type_invariant(&*self);
        }
        let ghost before = self@;
        let ghost views = event_views(events@);
        let mut signals: Vec<Pid> = Vec::new();
        let mut i: usize = 0;
        while i < events.len()
            invariant
                i <= events.len(),
                views == event_views(events@),
                self.wf(),
                self@ == before.fold_all(views.take(i as int)),
                signals@ == before.signals_all(views.take(i as int)),
            decreases events.len() - i,
        {
            proof {
                lemma_take_step(views, i as int);
            }
            let mut more = self.apply(&events[i]);
            signals.append(&mut more);
            i += 1;
        }
        proof {
            assert(views.take(i as int) =~= views);
        }
        signals
    }

    /// Moves the named service to `status`, as folding the returned event
    /// does, and returns that event for publication.
    pub fn update_status(&mut self, name: &str, status: ServiceStatus) -> (published: Event)
        ensures
            published@ == EventView::StatusChanged(name@, status),
            final(self)@ == old(self)@.fold(published@),
            final(self).wf(),
    {
        let published = Event::new_status_changed(name, status);
        let signals = self.apply(&published);
        published
    }

    /// Returns the event that announces the pid of the named service. The
    /// table itself changes only when that event is folded.
    pub fn update_pid(&self, name: String, pid: Pid) -> (published: Event)
        ensures
            published@ == EventView::ServicePidAssigned(name@, pid),
    {
        Event::new_pid_assigned(name, pid)
    }

    /// Whether some service of that name has reached a status that lets its
    /// successors start.
    pub fn has_started(&self, name: &String) -> (b: bool)
        ensures
            b == self@.has_started(name@),
    {
        let mut j: usize = 0;
        while j < self.handlers.len()
            invariant
                j <= self.handlers.len(),
                forall|k: int|
                    0 <= k < j ==> !((#[trigger] self@.handlers[k]).service.name == name@
                        && self@.handlers[k].status.spec_lets_successors_start()),
            decreases self.handlers.len() - j,
        {
            let handler = &self.handlers[j];
            assert(handler@ == self@.handlers[j as int]);
            if *handler.name() == *name && handler.status().lets_successors_start() {
                return true;
            }
            j += 1;
        }
        false
    }

    /// Whether the handler at `index` can be started.
    fn is_runnable_at(&self, index: usize) -> (b: bool)
        requires
            index < self@.handlers.len(),
        ensures
            b == self@.is_runnable(self@.handlers[index as int]),
    {
        let handler = &self.handlers[index];
        assert(handler@ == self@.handlers[index as int]);
        if !handler.is_initial() {
            return false;
        }
        let names = handler.start_after();
        let mut k: usize = 0;
        while k < names.len()
            invariant
                k <= names.len(),
                index < self@.handlers.len(),
                handler@ == self@.handlers[index as int],
                names.deep_view() == handler@.service.start_after,
                forall|m: int|
                    0 <= m < k ==> self@.has_started(#[trigger] handler@.service.start_after[m]),
            decreases names.len() - k,
        {
            assert(names.deep_view()[k as int] == names[k as int]@);
            if !self.has_started(&names[k]) {
                return false;
            }
            k += 1;
        }
        true
    }

    /// Snapshots of the handlers that can be started: those in their initial
    /// state whose every predecessor has started, in order.
    pub fn get_runnable(&self) -> (runnable: Vec<ServiceHandler>)
        ensures
            runnable@.map_values(|h: ServiceHandler| h@) == self@.runnable(),
    {
        let ghost table = self@;
        let ghost wanted = |h: HandlerView| table.is_runnable(h);
        let mut runnable: Vec<ServiceHandler> = Vec::new();
        let mut i: usize = 0;
        while i < self.handlers.len()
            invariant
                i <= self.handlers.len(),
                table == self@,
                wanted == (|h: HandlerView| table.is_runnable(h)),
                runnable@.map_values(|h: ServiceHandler| h@) == table.handlers.take(i as int).filter(
                    wanted,
                ),
            decreases self.handlers.len() - i,
        {
            proof {
                assert(table.handlers.take(i + 1) =~= table.handlers.take(i as int).push(
                    table.handlers[i as int],
                ));
                table.handlers.take(i as int).lemma_filter_push(table.handlers[i as int], wanted);
            }
            let ghost chosen = runnable@.map_values(|h: ServiceHandler| h@);
            if self.is_runnable_at(i) {
                runnable.push(self.handlers[i].clone());
                assert(runnable@.map_values(|h: ServiceHandler| h@) =~= chosen.push(
                    table.handlers[i as int],
                ));
            }
            i += 1;
        }
        proof {
            assert(table.handlers.take(i as int) =~= table.handlers);
        }
        runnable
    }

    pub fn is_any_running(&self) -> (b: bool)
        ensures
            b == self@.is_any_running(),
    {
        let mut i: usize = 0;
        while i < self.handlers.len()
            invariant
                i <= self.handlers.len(),
                forall|j: int| 0 <= j < i ==> !((#[trigger] self@.handlers[j]).status is Running),
            decreases self.handlers.len() - i,
        {
            assert(self.handlers[i as int]@ == self@.handlers[i as int]);
            if self.handlers[i].is_running() {
                return true;
            }
            i += 1;
        }
        false
    }

    pub fn all_terminal(&self) -> (b: bool)
        ensures
            b == self@.all_terminal(),
    {
        let mut i: usize = 0;
        while i < self.handlers.len()
            invariant
                i <= self.handlers.len(),
                forall|j: int|
                    0 <= j < i ==> (#[trigger] self@.handlers[j]).status.spec_is_terminal(),
            decreases self.handlers.len() - i,
        {
            assert(self.handlers[i as int]@ == self@.handlers[i as int]);
            if !self.handlers[i].is_terminal() {
                return false;
            }
            i += 1;
        }
        true
    }

    pub fn any_finished_failed(&self) -> (b: bool)
        ensures
            b == self@.any_finished_failed(),
    {
        let mut i: usize = 0;
        while i < self.handlers.len()
            invariant
                i <= self.handlers.len(),
                forall|j: int|
                    0 <= j < i ==> !((#[trigger] self@.handlers[j]).status is FinishedFailed),
            decreases self.handlers.len() - i,
        {
            assert(self.handlers[i as int]@ == self@.handlers[i as int]);
            if self.handlers[i].is_finished_failed() {
                return true;
            }
            i += 1;
        }
        false
    }

    /// The name of the first service that holds `pid`, if any does.
    pub fn get_service_by_pid(&self, pid: Pid) -> (name: Option<String>)
        ensures
            text_view(name) == self@.service_by_pid(pid),
            name is Some <==> self@.holds_pid(pid),
    {
        let mut i: usize = 0;
        while i < self.handlers.len()
            invariant
                i <= self.handlers.len(),
                forall|j: int| 0 <= j < i ==> (#[trigger] self@.handlers[j]).pid != Some(pid),
            decreases self.handlers.len() - i,
        {
            assert(self.handlers[i as int]@ == self@.handlers[i as int]);
            if self.handlers[i].pid() == Some(pid) {
                let name = self.handlers[i].name().clone();
                proof {
                    assert(self@.is_first_holder(i as int, pid));
                    let first = choose|k: int| self@.is_first_holder(k, pid);
                    assert(first == i) by {
                        if first < i {
                            assert(self@.handlers[first].pid != Some(pid));
                        }
                        if i < first {
                            assert(self@.handlers[i as int].pid != Some(pid));
                        }
                    }
                }
                return Some(name);
            }
            i += 1;
        }
        None
    }

    /// Stops every handler. Returns the processes that have to be sent a
    /// termination signal and the status changes to announce.
    pub fn stop_all(&mut self) -> (plan: StopPlan)
        ensures
            final(self)@ == old(self)@.stopped(),
            plan.signals@ == old(self)@.stop_signals(),
            event_views(plan.published@) == old(self)@.stop_events(),
            final(self).wf(),
    {
        proof {
            use_type_invariant(&*self);
        }
        let ghost before = self@;
        let ghost asks = |h: HandlerView| h.signalled_by_stop();
        let ghost announces = |h: HandlerView| h.announced_by_stop();
        let mut signals: Vec<Pid> = Vec::new();
        let mut published: Vec<Event> = Vec::new();
        let mut handlers: Vec<ServiceHandler> = Vec::new();
        core::mem::swap(&mut handlers, &mut self.handlers);
        let mut i: usize = 0;
        while i < handlers.len()
            invariant
                i <= handlers.len(),
                handlers.len() == before.handlers.len(),
                asks == (|h: HandlerView| h.signalled_by_stop()),
                announces == (|h: HandlerView| h.announced_by_stop()),
                forall|j: int|
                    0 <= j < i ==> (#[trigger] handlers[j])@ == before.handlers[j].stopped(),
                forall|j: int| 0 <= j < i ==> (#[trigger] handlers[j]).wf(),
                forall|j: int|
                    i <= j < handlers.len() ==> (#[trigger] handlers[j])@ == before.handlers[j],
                signals@ == before.handlers.take(i as int).filter_map(asks),
                event_views(published@) == before.handlers.take(i as int).filter_map(announces),
            decreases handlers.len() - i,
        {
            proof {
                before.handlers.lemma_filter_map_take_succ(asks, i as int);
                before.handlers.lemma_filter_map_take_succ(announces, i as int);
            }
            let ghost announced = event_views(published@);
            let (signal, event) = handlers[i].stop();
            if let Some(pid) = signal {
                signals.push(pid);
            }
            if let Some(e) = event {
                published.push(e);
                assert(event_views(published@) =~= announced + seq![e@]);
            }
            i += 1;
        }
        proof {
            assert(before.handlers.take(i as int) =~= before.handlers);
            assert(handlers@.map_values(|h: ServiceHandler| h@) =~= before.stopped().handlers);
        }
        self.handlers = handlers;
        StopPlan { signals, published }
    }

    /// Hands every runnable handler to the spawner: each moves to `ToBeRun`.
    /// Returns the services to spawn and the status changes to announce.
    pub fn schedule(&mut self) -> (plan: SpawnPlan)
        ensures
            final(self)@ == old(self)@.scheduled(),
            service_views(plan.services@) == old(self)@.runnable().map_values(
                |h: HandlerView| h.service,
            ),
            event_views(plan.published@) == old(self)@.schedule_events(),
            final(self).wf(),
    {
        proof {
            use_type_invariant(&*self);
        }
        let ghost before = self@;
        let ghost wanted = before.schedule_events();
        let runnable = self.get_runnable();
        let mut services: Vec<Service> = Vec::new();
        let mut published: Vec<Event> = Vec::new();
        let mut i: usize = 0;
        while i < runnable.len()
            invariant
                i <= runnable.len(),
                runnable@.map_values(|h: ServiceHandler| h@) == before.runnable(),
                wanted == before.schedule_events(),
                self.wf(),
                self@ == before.fold_all(wanted.take(i as int)),
                event_views(published@) == wanted.take(i as int),
                service_views(services@) == before.runnable().map_values(
                    |h: HandlerView| h.service,
                ).take(i as int),
            decreases runnable.len() - i,
        {
            proof {
                lemma_take_step(wanted, i as int);
                assert(runnable@.map_values(|h: ServiceHandler| h@)[i as int] == runnable[i as int]@);
            }
            let ghost announced = event_views(published@);
            let ghost chosen = service_views(services@);
            let handler = &runnable[i];
            let event = self.update_status(handler.name().as_str(), ServiceStatus::ToBeRun);
            published.push(event);
            services.push(handler.service().clone());
            proof {
                assert(event_views(published@) =~= announced.push(wanted[i as int]));
                assert(wanted.take(i + 1) =~= wanted.take(i as int).push(wanted[i as int]));
                assert(service_views(services@) =~= chosen.push(handler@.service));
                assert(before.runnable().map_values(|h: HandlerView| h.service).take(i + 1)
                    =~= before.runnable().map_values(|h: HandlerView| h.service).take(
                    i as int,
                ).push(handler@.service));
            }
            i += 1;
        }
        proof {
            assert(wanted.take(i as int) =~= wanted);
            assert(before.runnable().map_values(|h: HandlerView| h.service).take(i as int)
                =~= before.runnable().map_values(|h: HandlerView| h.service));
        }
        SpawnPlan { services, published }
    }
}

/// What stopping everything asks of the outside world.
#[derive(Debug, PartialEq, Eq)]
pub struct StopPlan {
    /// The processes to send a termination signal to.
    pub signals: Vec<Pid>,
    /// The status changes to publish.
    pub published: Vec<Event>,
}

/// What scheduling asks of the outside world.
#[derive(Debug, PartialEq, Eq)]
pub struct SpawnPlan {
    /// The services to hand to the spawner.
    pub services: Vec<Service>,
    /// The status changes to publish.
    pub published: Vec<Event>,
}

} // verus!
