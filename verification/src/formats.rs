//! Plain data shared by every component: service definitions, statuses and events.

use vstd::prelude::*;

verus! {

/// The raw process id type used throughout the supervisor.
pub type Pid = i32;

/// Where a service stands in its lifecycle.
#[derive(Clone, Copy, Debug, PartialEq, Eq, Hash, Structural)]
pub enum ServiceStatus {
    /// Declared, not yet scheduled.
    Initial,
    /// Scheduled; handed to the spawner.
    ToBeRun,
    /// The spawner is working on it.
    Starting,
    /// A process is alive under a known pid.
    Running,
    /// A termination signal was sent; the exit has not been reaped yet.
    InKilling,
    /// Exited successfully, or will never run.
    Finished,
    /// Exited with a failure and will not be restarted.
    FinishedFailed,
    /// Could not be spawned.
    Failed,
}

impl ServiceStatus {
    /// Terminal statuses are never left again.
    pub open spec fn spec_is_terminal(self) -> bool {
        self is Finished || self is FinishedFailed || self is Failed
    }

    /// The statuses under which a handler may hold a pid.
    pub open spec fn spec_may_hold_pid(self) -> bool {
        self is Running || self is InKilling
    }

    /// The statuses of a predecessor that let its successors start.
    pub open spec fn spec_lets_successors_start(self) -> bool {
        self is Running || self is Finished || self is FinishedFailed
    }

    #[verifier::when_used_as_spec(spec_is_terminal)]
    pub fn is_terminal(self) -> (b: bool)
        ensures
            b == self.spec_is_terminal(),
    {
        match self {
            ServiceStatus::Finished | ServiceStatus::FinishedFailed | ServiceStatus::Failed => true,
            _ => false,
        }
    }

    #[verifier::when_used_as_spec(spec_may_hold_pid)]
    pub fn may_hold_pid(self) -> (b: bool)
        ensures
            b == self.spec_may_hold_pid(),
    {
        match self {
            ServiceStatus::Running | ServiceStatus::InKilling => true,
            _ => false,
        }
    }

    #[verifier::when_used_as_spec(spec_lets_successors_start)]
    pub fn lets_successors_start(self) -> (b: bool)
        ensures
            b == self.spec_lets_successors_start(),
    {
        match self {
            ServiceStatus::Running | ServiceStatus::Finished | ServiceStatus::FinishedFailed => true,
            _ => false,
        }
    }
}

/// What to do with a service once its process has exited.
#[derive(Clone, Copy, Debug, PartialEq, Eq, Hash, Structural)]
pub enum RestartStrategy {
    Never,
    OnFailure,
    Always,
}

/// The status a handler takes when its process exits with `exit_code`.
///
/// A non-zero code is a failure. While the supervisor is shutting down the
/// restart strategy is ignored and every exit is final.
pub open spec fn status_after_exit(
    strategy: RestartStrategy,
    exit_code: i32,
    shutting_down: bool,
) -> ServiceStatus {
    let failed = exit_code != 0;
    if shutting_down {
        if failed {
            ServiceStatus::FinishedFailed
        } else {
            ServiceStatus::Finished
        }
    } else {
        match strategy {
            RestartStrategy::Never => if failed {
                ServiceStatus::FinishedFailed
            } else {
                ServiceStatus::Finished
            },
            RestartStrategy::OnFailure => if failed {
                ServiceStatus::Initial
            } else {
                ServiceStatus::Finished
            },
            RestartStrategy::Always => ServiceStatus::Initial,
        }
    }
}

impl RestartStrategy {
    /// Applies the restart policy to an exit.
    pub fn on_exit(self, exit_code: i32, shutting_down: bool) -> (next: ServiceStatus)
        ensures
            next == status_after_exit(self, exit_code, shutting_down),
    {
        let failed = exit_code != 0;
        if shutting_down {
            if failed {
                ServiceStatus::FinishedFailed
            } else {
                ServiceStatus::Finished
            }
        } else {
            match self {
                RestartStrategy::Never => if failed {
                    ServiceStatus::FinishedFailed
                } else {
                    ServiceStatus::Finished
                },
                RestartStrategy::OnFailure => if failed {
                    ServiceStatus::Initial
                } else {
                    ServiceStatus::Finished
                },
                RestartStrategy::Always => ServiceStatus::Initial,
            }
        }
    }
}

/// How the liveness of a running service is probed. Every probe is optional.
#[derive(Debug, PartialEq, Eq)]
pub struct Healthcheck {
    pub http_endpoint: Option<String>,
    pub file_path: Option<String>,
    pub command: Option<String>,
}

pub struct HealthcheckView {
    pub http_endpoint: Option<Seq<char>>,
    pub file_path: Option<Seq<char>>,
    pub command: Option<Seq<char>>,
}

/// The view of an optional string.
pub open spec fn text_view(s: Option<String>) -> Option<Seq<char>> {
    match s {
        Some(t) => Some(t@),
        None => None,
    }
}

/// Copies an optional string.
pub fn clone_text(s: &Option<String>) -> (r: Option<String>)
    ensures
        text_view(r) == text_view(*s),
{
    match s {
        Some(t) => Some(t.clone()),
        None => None,
    }
}

/// Copies a list of strings.
pub fn clone_texts(v: &Vec<String>) -> (r: Vec<String>)
    ensures
        r.deep_view() == v.deep_view(),
{
    let mut out: Vec<String> = Vec::new();
    let mut i: usize = 0;
    while i < v.len()
        invariant
            i <= v.len(),
            out.len() == i,
            forall|j: int| 0 <= j < i ==> out[j]@ == v[j]@,
        decreases v.len() - i,
    {
        out.push(v[i].clone());
        i += 1;
    }
    assert(out.deep_view() =~= v.deep_view());
    out
}

impl View for Healthcheck {
    type V = HealthcheckView;

    open spec fn view(&self) -> HealthcheckView {
        HealthcheckView {
            http_endpoint: text_view(self.http_endpoint),
            file_path: text_view(self.file_path),
            command: text_view(self.command),
        }
    }
}

impl Clone for Healthcheck {
    fn clone(&self) -> (r: Self)
        ensures
            r@ == self@,
    {
        Healthcheck {
            http_endpoint: clone_text(&self.http_endpoint),
            file_path: clone_text(&self.file_path),
            command: clone_text(&self.command),
        }
    }
}

impl HealthcheckView {
    /// Whether at least one probe is defined.
    pub open spec fn has_probe(self) -> bool {
        self.http_endpoint is Some || self.file_path is Some || self.command is Some
    }
}

impl Healthcheck {
    /// Whether at least one probe is defined.
    pub fn has_probe(&self) -> (b: bool)
        ensures
            b == self@.has_probe(),
    {
        self.http_endpoint.is_some() || self.file_path.is_some() || self.command.is_some()
    }
}

/// An immutable service definition.
#[derive(Debug, PartialEq, Eq)]
pub struct Service {
    pub name: String,
    pub command: String,
    pub working_directory: Option<String>,
    pub start_delay_ms: u64,
    pub start_after: Vec<String>,
    pub restart_strategy: RestartStrategy,
    pub healthcheck: Option<Healthcheck>,
}

pub struct ServiceView {
    pub name: Seq<char>,
    pub command: Seq<char>,
    pub working_directory: Option<Seq<char>>,
    pub start_delay_ms: u64,
    pub start_after: Seq<Seq<char>>,
    pub restart_strategy: RestartStrategy,
    pub healthcheck: Option<HealthcheckView>,
}

impl View for Service {
    type V = ServiceView;

    open spec fn view(&self) -> ServiceView {
        ServiceView {
            name: self.name@,
            command: self.command@,
            working_directory: text_view(self.working_directory),
            start_delay_ms: self.start_delay_ms,
            start_after: self.start_after.deep_view(),
            restart_strategy: self.restart_strategy,
            healthcheck: match self.healthcheck {
                Some(h) => Some(h@),
                None => None,
            },
        }
    }
}

impl Clone for Service {
    fn clone(&self) -> (r: Self)
        ensures
            r@ == self@,
    {
        Service {
            name: self.name.clone(),
            command: self.command.clone(),
            working_directory: clone_text(&self.working_directory),
            start_delay_ms: self.start_delay_ms,
            start_after: clone_texts(&self.start_after),
            restart_strategy: self.restart_strategy,
            healthcheck: match &self.healthcheck {
                Some(h) => Some(h.clone()),
                None => None,
            },
        }
    }
}

impl Service {
    /// The definition synthesized for a single ad-hoc command: it is named
    /// after the command, never restarts and waits for nothing.
    pub open spec fn spec_from_command(command: Seq<char>) -> ServiceView {
        ServiceView {
            name: command,
            command: command,
            working_directory: None,
            start_delay_ms: 0,
            start_after: Seq::empty(),
            restart_strategy: RestartStrategy::Never,
            healthcheck: None,
        }
    }

    pub fn from_command(command: String) -> (s: Service)
        ensures
            s@ == Self::spec_from_command(command@),
    {
        let s = Service {
            name: command.clone(),
            command,
            working_directory: None,
            start_delay_ms: 0,
            start_after: Vec::new(),
            restart_strategy: RestartStrategy::Never,
            healthcheck: None,
        };
        assert(s.start_after.deep_view() =~= Seq::<Seq<char>>::empty());
        s
    }

    /// A definition that carries only a name and the names it starts after.
    pub open spec fn spec_start_after(name: Seq<char>, start_after: Seq<Seq<char>>) -> ServiceView {
        ServiceView {
            name: name,
            command: Seq::empty(),
            working_directory: None,
            start_delay_ms: 0,
            start_after: start_after,
            restart_strategy: RestartStrategy::Never,
            healthcheck: None,
        }
    }

    pub fn start_after(name: &str, start_after: Vec<&str>) -> (s: Service)
        ensures
            s@ == Self::spec_start_after(name@, start_after.deep_view()),
    {
        let mut after: Vec<String> = Vec::new();
        let mut i: usize = 0;
        while i < start_after.len()
            invariant
                i <= start_after.len(),
                after.len() == i,
                forall|j: int| 0 <= j < i ==> after[j]@ == start_after[j]@,
            decreases start_after.len() - i,
        {
            after.push(start_after[i].to_owned());
            i += 1;
        }
        assert(after.deep_view() =~= start_after.deep_view());
        Service {
            name: name.to_owned(),
            command: String::new(),
            working_directory: None,
            start_delay_ms: 0,
            start_after: after,
            restart_strategy: RestartStrategy::Never,
            healthcheck: None,
        }
    }

    /// A definition that carries only a name.
    pub fn from_name(name: &str) -> (s: Service)
        ensures
            s@ == Self::spec_start_after(name@, Seq::empty()),
    {
        let none: Vec<&str> = Vec::new();
        assert(none.deep_view() =~= Seq::<Seq<char>>::empty());
        Self::start_after(name, none)
    }

    /// A definition loaded without a name is named after the file it came from.
    pub fn named_after_file(self, file_name: &str) -> (s: Service)
        ensures
            s@ == (if self@.name.len() == 0 {
                ServiceView { name: file_name@, ..self@ }
            } else {
                self@
            }),
    {
        if self.name.as_str().is_empty() {
            let mut s = self;
            s.name = file_name.to_owned();
            s
        } else {
            self
        }
    }
}

/// What travels over the bus. Events are totally ordered by publication.
#[derive(Debug, PartialEq, Eq)]
pub enum Event {
    /// The spawner forked a process for the named service.
    ServicePidAssigned(String, Pid),
    /// A component moved the named service to a new status.
    StatusChanged(String, ServiceStatus),
    /// The process of the named service exited with the given code.
    ServiceExited(String, i32),
    /// The supervisor was asked to terminate.
    ShutdownRequested,
    /// The probe of the named service succeeded.
    ServiceHealthy(String),
    /// The probe of the named service failed.
    ServiceUnhealthy(String),
}

pub enum EventView {
    ServicePidAssigned(Seq<char>, Pid),
    StatusChanged(Seq<char>, ServiceStatus),
    ServiceExited(Seq<char>, i32),
    ShutdownRequested,
    ServiceHealthy(Seq<char>),
    ServiceUnhealthy(Seq<char>),
}

impl View for Event {
    type V = EventView;

    open spec fn view(&self) -> EventView {
        match *self {
            Event::ServicePidAssigned(name, pid) => EventView::ServicePidAssigned(name@, pid),
            Event::StatusChanged(name, status) => EventView::StatusChanged(name@, status),
            Event::ServiceExited(name, code) => EventView::ServiceExited(name@, code),
            Event::ShutdownRequested => EventView::ShutdownRequested,
            Event::ServiceHealthy(name) => EventView::ServiceHealthy(name@),
            Event::ServiceUnhealthy(name) => EventView::ServiceUnhealthy(name@),
        }
    }
}

impl Clone for Event {
    fn clone(&self) -> (r: Self)
        ensures
            r@ == self@,
    {
        match self {
            Event::ServicePidAssigned(name, pid) => Event::ServicePidAssigned(name.clone(), *pid),
            Event::StatusChanged(name, status) => Event::StatusChanged(name.clone(), *status),
            Event::ServiceExited(name, code) => Event::ServiceExited(name.clone(), *code),
            Event::ShutdownRequested => Event::ShutdownRequested,
            Event::ServiceHealthy(name) => Event::ServiceHealthy(name.clone()),
            Event::ServiceUnhealthy(name) => Event::ServiceUnhealthy(name.clone()),
        }
    }
}

impl Event {
    pub fn new_pid_assigned(service_name: String, pid: Pid) -> (e: Event)
        ensures
            e@ == EventView::ServicePidAssigned(service_name@, pid),
    {
        Event::ServicePidAssigned(service_name, pid)
    }

    pub fn new_status_changed(service_name: &str, status: ServiceStatus) -> (e: Event)
        ensures
            e@ == EventView::StatusChanged(service_name@, status),
    {
        Event::StatusChanged(service_name.to_owned(), status)
    }

    pub fn new_service_exited(service_name: String, exit_code: i32) -> (e: Event)
        ensures
            e@ == EventView::ServiceExited(service_name@, exit_code),
    {
        Event::ServiceExited(service_name, exit_code)
    }
}

/// The view of an optional event.
pub open spec fn optional_event_view(event: Option<Event>) -> Option<EventView> {
    match event {
        Some(e) => Some(e@),
        None => None,
    }
}

/// The views of a list of events, in order.
pub open spec fn event_views(events: Seq<Event>) -> Seq<EventView> {
    events.map_values(|e: Event| e@)
}

/// The views of a list of service definitions, in order.
pub open spec fn service_views(services: Seq<Service>) -> Seq<ServiceView> {
    services.map_values(|s: Service| s@)
}

} // verus!
