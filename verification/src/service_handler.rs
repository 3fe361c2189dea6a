//! The mutable per-service state and the rules by which events change it.

use crate::formats::{
    status_after_exit, Event, EventView, Pid, Service, ServiceStatus, ServiceView,
};
use vstd::prelude::*;

verus! {

/// The mutable state that the supervisor keeps for one service.
#[derive(Debug, PartialEq, Eq)]
pub struct ServiceHandler {
    service: Service,
    status: ServiceStatus,
    pid: Option<Pid>,
}

pub struct HandlerView {
    pub service: ServiceView,
    pub status: ServiceStatus,
    pub pid: Option<Pid>,
}

impl HandlerView {
    /// The state in which every handler begins.
    pub open spec fn fresh(service: ServiceView) -> HandlerView {
        HandlerView { service, status: ServiceStatus::Initial, pid: None }
    }

    /// A pid is held only while the service runs or is being killed.
    pub open spec fn wf(self) -> bool {
        self.pid is Some ==> self.status.spec_may_hold_pid()
    }

    /// The handler after one event.
    ///
    /// Events that name another service leave it unchanged, and so does an
    /// event whose precondition fails:
    /// a pid is accepted only while the service waits to run or is starting;
    /// a status change never leaves a terminal status, and drops the pid when
    /// the new status cannot hold one;
    /// an exit counts only while a pid is held, applies the restart policy and
    /// clears the pid;
    /// an unhealthy report counts only while the service runs.
    pub open spec fn fold(self, event: EventView, shutting_down: bool) -> HandlerView {
        match event {
            EventView::ServicePidAssigned(name, pid) => {
                if name == self.service.name && (self.status is ToBeRun || self.status is Starting) {
                    HandlerView { status: ServiceStatus::Running, pid: Some(pid), ..self }
                } else {
                    self
                }
            },
            EventView::StatusChanged(name, status) => {
                if name == self.service.name && !self.status.spec_is_terminal() {
                    HandlerView {
                        status,
                        pid: if status.spec_may_hold_pid() {
                            self.pid
                        } else {
                            None
                        },
                        ..self
                    }
                } else {
                    self
                }
            },
            EventView::ServiceExited(name, exit_code) => {
                if name == self.service.name && self.pid is Some {
                    HandlerView {
                        status: status_after_exit(
                            self.service.restart_strategy,
                            exit_code,
                            shutting_down,
                        ),
                        pid: None,
                        ..self
                    }
                } else {
                    self
                }
            },
            EventView::ServiceUnhealthy(name) => {
                if name == self.service.name && self.status is Running {
                    HandlerView { status: ServiceStatus::InKilling, ..self }
                } else {
                    self
                }
            },
            EventView::ServiceHealthy(_) => self,
            EventView::ShutdownRequested => self,
        }
    }

    /// The process that an event asks to terminate: the one of a running
    /// service that is reported unhealthy.
    pub open spec fn signalled_by(self, event: EventView) -> Option<Pid> {
        match event {
            EventView::ServiceUnhealthy(name) => {
                if name == self.service.name && self.status is Running {
                    self.pid
                } else {
                    None
                }
            },
            _ => None,
        }
    }

    /// The handler after the supervisor has decided to stop everything: a
    /// running service with a known pid is being killed, one that has not
    /// started will never start, every other one stays as it is.
    pub open spec fn stopped(self) -> HandlerView {
        if self.status is Running && self.pid is Some {
            HandlerView { status: ServiceStatus::InKilling, ..self }
        } else if self.status is Initial || self.status is ToBeRun {
            HandlerView { status: ServiceStatus::Finished, ..self }
        } else {
            self
        }
    }

    /// The process that stopping this handler sends a termination signal to.
    pub open spec fn signalled_by_stop(self) -> Option<Pid> {
        if self.status is Running {
            self.pid
        } else {
            None
        }
    }

    /// The status change that stopping this handler announces, if it changes
    /// anything.
    pub open spec fn announced_by_stop(self) -> Option<EventView> {
        if self.status is Running && self.pid is Some {
            Some(EventView::StatusChanged(self.service.name, ServiceStatus::InKilling))
        } else if self.status is Initial || self.status is ToBeRun {
            Some(EventView::StatusChanged(self.service.name, ServiceStatus::Finished))
        } else {
            None
        }
    }
}

impl View for ServiceHandler {
    type V = HandlerView;

    closed spec fn view(&self) -> HandlerView {
        HandlerView { service: self.service@, status: self.status, pid: self.pid }
    }
}

impl Clone for ServiceHandler {
    fn clone(&self) -> (r: Self)
        ensures
            r@ == self@,
    {
        proof {
            use_type_invariant(self);
        }
        ServiceHandler { service: self.service.clone(), status: self.status, pid: self.pid }
    }
}

impl ServiceHandler {
    /// Every handler upholds the invariant of its view.
    #[verifier::type_invariant]
    closed spec fn inv(&self) -> bool {
        self@.wf()
    }

    /// Whether the handler upholds its invariant.
    pub open spec fn wf(&self) -> bool {
        self@.wf()
    }

    /// Tells the caller that this handler upholds its invariant, as every one
    /// does. Nothing happens at run time.
    pub fn upholds_invariant(&self)
        ensures
            self.wf(),
    {
        proof {
            use_type_invariant(self);
        }
    }

    pub fn new(service: Service) -> (handler: ServiceHandler)
        ensures
            handler@ == HandlerView::fresh(service@),
            handler.wf(),
    {
        ServiceHandler { service, status: ServiceStatus::Initial, pid: None }
    }

    pub fn service(&self) -> (service: &Service)
        ensures
            service@ == self@.service,
    {
        &self.service
    }

    pub fn name(&self) -> (name: &String)
        ensures
            name@ == self@.service.name,
    {
        &self.service.name
    }

    pub fn start_after(&self) -> (names: &Vec<String>)
        ensures
            names.deep_view() == self@.service.start_after,
    {
        &self.service.start_after
    }

    pub fn status(&self) -> (status: ServiceStatus)
        ensures
            status == self@.status,
    {
        self.status
    }

    pub fn pid(&self) -> (pid: Option<Pid>)
        ensures
            pid == self@.pid,
    {
        self.pid
    }

    pub fn is_initial(&self) -> (b: bool)
        ensures
            b == (self@.status is Initial),
    {
        matches!(self.status, ServiceStatus::Initial)
    }

    pub fn is_to_be_run(&self) -> (b: bool)
        ensures
            b == (self@.status is ToBeRun),
    {
        matches!(self.status, ServiceStatus::ToBeRun)
    }

    pub fn is_starting(&self) -> (b: bool)
        ensures
            b == (self@.status is Starting),
    {
        matches!(self.status, ServiceStatus::Starting)
    }

    pub fn is_running(&self) -> (b: bool)
        ensures
            b == (self@.status is Running),
    {
        matches!(self.status, ServiceStatus::Running)
    }

    pub fn is_in_killing(&self) -> (b: bool)
        ensures
            b == (self@.status is InKilling),
    {
        matches!(self.status, ServiceStatus::InKilling)
    }

    pub fn is_finished(&self) -> (b: bool)
        ensures
            b == (self@.status is Finished),
    {
        matches!(self.status, ServiceStatus::Finished)
    }

    pub fn is_finished_failed(&self) -> (b: bool)
        ensures
            b == (self@.status is FinishedFailed),
    {
        matches!(self.status, ServiceStatus::FinishedFailed)
    }

    pub fn is_failed(&self) -> (b: bool)
        ensures
            b == (self@.status is Failed),
    {
        matches!(self.status, ServiceStatus::Failed)
    }

    pub fn is_terminal(&self) -> (b: bool)
        ensures
            b == self@.status.spec_is_terminal(),
    {
        self.status.is_terminal()
    }

    /// Folds one event into the handler and returns the process, if any, that
    /// the event asks to terminate.
    pub fn apply(&mut self, event: &Event, shutting_down: bool) -> (signal: Option<Pid>)
        ensures
            final(self)@ == old(self)@.fold(event@, shutting_down),
            signal == old(self)@.signalled_by(event@),
            final(self).wf(),
    {
        proof {
            use_type_invariant(&*self);
        }
        match event {
            Event::ServicePidAssigned(name, pid) => {
                if *name == self.service.name && (self.is_to_be_run() || self.is_starting()) {
                    self.status = ServiceStatus::Running;
                    self.pid = Some(*pid);
                }
                None
            },
            Event::StatusChanged(name, status) => {
                if *name == self.service.name && !self.status.is_terminal() {
                    if !status.may_hold_pid() {
                        self.pid = None;
                    }
                    self.status = *status;
                }
                None
            },
            Event::ServiceExited(name, exit_code) => {
                if *name == self.service.name && self.pid.is_some() {
                    self.pid = None;
                    self.status = self.service.restart_strategy.on_exit(*exit_code, shutting_down);
                }
                None
            },
            Event::ServiceUnhealthy(name) => {
                if *name == self.service.name && self.is_running() {
                    self.status = ServiceStatus::InKilling;
                    self.pid
                } else {
                    None
                }
            },
            Event::ServiceHealthy(_) => None,
            Event::ShutdownRequested => None,
        }
    }

    /// Stops the handler. Returns the process, if any, that has to be sent a
    /// termination signal, and the status change, if any, to announce.
    pub fn stop(&mut self) -> (outcome: (Option<Pid>, Option<Event>))
        ensures
            final(self)@ == old(self)@.stopped(),
            outcome.0 == old(self)@.signalled_by_stop(),
            match outcome.1 {
                Some(e) => old(self)@.announced_by_stop() == Some(e@),
                None => old(self)@.announced_by_stop() is None,
            },
            final(self).wf(),
    {
        proof {
            use_type_invariant(&*self);
        }
        if self.is_running() && self.pid.is_some() {
            self.status = ServiceStatus::InKilling;
            let event = Event::StatusChanged(self.service.name.clone(), ServiceStatus::InKilling);
            (self.pid, Some(event))
        } else if self.is_initial() || self.is_to_be_run() {
            self.status = ServiceStatus::Finished;
            let event = Event::StatusChanged(self.service.name.clone(), ServiceStatus::Finished);
            (None, Some(event))
        } else {
            (None, None)
        }
    }
}

} // verus!
