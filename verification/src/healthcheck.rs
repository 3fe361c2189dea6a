//! What the healthcheck decides: which services to probe, and which event a
//! probe result gives rise to.

use crate::formats::{
    optional_event_view, service_views, Event, EventView, Service, ServiceView,
};
use crate::repository::{RepoView, ServiceRepository};
use crate::service_handler::{HandlerView, ServiceHandler};
use vstd::prelude::*;

verus! {

impl HandlerView {
    /// Whether the handler is probed: it runs, and its service defines a probe.
    pub open spec fn is_probed(self) -> bool {
        &&& self.status is Running
        &&& self.service.healthcheck matches Some(check)
        &&& check.has_probe()
    }
}

impl RepoView {
    /// The services to probe, in order.
    pub open spec fn probed(self) -> Seq<ServiceView> {
        self.handlers.filter(|h: HandlerView| h.is_probed()).map_values(|h: HandlerView| h.service)
    }
}

/// Whether the handler is probed.
pub fn is_probed(handler: &ServiceHandler) -> (b: bool)
    ensures
        b == handler@.is_probed(),
{
    if !handler.is_running() {
        return false;
    }
    match &handler.service().healthcheck {
        Some(check) => check.has_probe(),
        None => false,
    }
}

/// The services to probe: those that run and define a probe, in order.
pub fn probe_targets(repo: &ServiceRepository) -> (targets: Vec<Service>)
    ensures
        service_views(targets@) == repo@.probed(),
{
    let ghost wanted = |h: HandlerView| h.is_probed();
    let ghost service_of = |h: HandlerView| h.service;
    let mut targets: Vec<Service> = Vec::new();
    let n = repo.len();
    let mut i: usize = 0;
    while i < n
        invariant
            i <= n,
            n == repo@.handlers.len(),
            wanted == (|h: HandlerView| h.is_probed()),
            service_of == (|h: HandlerView| h.service),
            service_views(targets@) == repo@.handlers.take(i as int).filter(wanted).map_values(
                service_of,
            ),
        decreases n - i,
    {
        proof {
            assert(repo@.handlers.take(i + 1) =~= repo@.handlers.take(i as int).push(
                repo@.handlers[i as int],
            ));
            repo@.handlers.take(i as int).lemma_filter_push(repo@.handlers[i as int], wanted);
        }
        let ghost chosen = service_views(targets@);
        match repo.handler(i) {
            Some(handler) => {
                if is_probed(handler) {
                    targets.push(handler.service().clone());
                    assert(service_views(targets@) =~= chosen.push(handler@.service));
                    assert(repo@.handlers.take(i as int).filter(wanted).push(
                        repo@.handlers[i as int],
                    ).map_values(service_of) =~= chosen.push(handler@.service));
                }
            },
            None => {},
        }
        i += 1;
    }
    proof {
        assert(repo@.handlers.take(i as int) =~= repo@.handlers);
    }
    targets
}

/// The event that a probe result gives rise to: a report only when the
/// health of the service has changed since the last probe.
pub open spec fn probe_report(name: Seq<char>, was_healthy: bool, is_healthy: bool) -> Option<
    EventView,
> {
    if was_healthy && !is_healthy {
        Some(EventView::ServiceUnhealthy(name))
    } else if !was_healthy && is_healthy {
        Some(EventView::ServiceHealthy(name))
    } else {
        None
    }
}

pub fn evaluate(name: &str, was_healthy: bool, is_healthy: bool) -> (report: Option<Event>)
    ensures
        optional_event_view(report) == probe_report(name@, was_healthy, is_healthy),
{
    if was_healthy && !is_healthy {
        Some(Event::ServiceUnhealthy(name.to_owned()))
    } else if !was_healthy && is_healthy {
        Some(Event::ServiceHealthy(name.to_owned()))
    } else {
        None
    }
}

/// What the probes of one service found; `None` where the service does not
/// define the probe.
#[derive(Clone, Copy, Debug, PartialEq, Eq, Structural)]
pub struct ProbeResults {
    pub http: Option<bool>,
    pub file: Option<bool>,
    pub command: Option<bool>,
}

impl ProbeResults {
    /// A service is healthy when none of its probes failed.
    pub open spec fn spec_is_healthy(self) -> bool {
        self.http != Some(false) && self.file != Some(false) && self.command != Some(false)
    }

    #[verifier::when_used_as_spec(spec_is_healthy)]
    pub fn is_healthy(self) -> (b: bool)
        ensures
            b == self.spec_is_healthy(),
    {
        let http = match self.http {
            Some(found) => found,
            None => true,
        };
        let file = match self.file {
            Some(found) => found,
            None => true,
        };
        let command = match self.command {
            Some(found) => found,
            None => true,
        };
        http && file && command
    }
}

} // verus!
