use horust::config::{ExitStatus, HorustConfig};
use horust::formats::{Event, Healthcheck, RestartStrategy, Service, ServiceStatus};
use horust::healthcheck::{self, ProbeResults};
use horust::reaper::{self, WaitOutcome};
use horust::repository::ServiceRepository;
use horust::runtime::{Horust, TickPlan};
use horust::loader::LoadedFile;
use horust::spawner;
use horust::validation::ValidationError;

/// Plays the part of the outside world around a supervisor: it carries the
/// published events back, forks by handing out pids, and records signals.
struct World {
    horust: Horust,
    pending: Vec<Event>,
    next_pid: i32,
    signalled: Vec<i32>,
    spawned: Vec<String>,
}

impl World {
    fn new(horust: Horust) -> World {
        World { horust, pending: vec![], next_pid: 100, signalled: vec![], spawned: vec![] }
    }

    fn tick(&mut self) -> TickPlan {
        let events = std::mem::take(&mut self.pending);
        let plan = self.horust.tick(events);
        self.pending.extend(plan.published.iter().cloned());
        self.signalled.extend(plan.signals.iter().copied());
        for service in plan.spawns.iter() {
            let pid = self.next_pid;
            self.next_pid += 1;
            self.spawned.push(service.name.clone());
            self.pending.push(Event::ServicePidAssigned(service.name.clone(), pid));
        }
        plan
    }

    fn wait(&mut self, outcome: WaitOutcome) {
        let step = reaper::step(self.horust.repository(), outcome);
        if let Some(event) = step.event {
            self.pending.push(event);
        }
    }

    fn status(&self, index: usize) -> ServiceStatus {
        self.horust.repository().handler(index).unwrap().status()
    }

    fn pid(&self, index: usize) -> Option<i32> {
        self.horust.repository().handler(index).unwrap().pid()
    }
}

fn strict() -> HorustConfig {
    HorustConfig { unsuccessful_exit_finished_failed: true }
}

#[test]
fn single_command_clean_exit() {
    let mut world = World::new(Horust::from_command("/bin/true".to_string()));
    assert_eq!(world.status(0), ServiceStatus::Initial);

    let plan = world.tick();
    assert_eq!(plan.spawns, vec![Service::from_command("/bin/true".to_string())]);
    assert_eq!(
        plan.published,
        vec![Event::StatusChanged("/bin/true".to_string(), ServiceStatus::ToBeRun)]
    );
    assert!(!plan.finished);
    assert_eq!(world.status(0), ServiceStatus::ToBeRun);

    let plan = world.tick();
    assert!(plan.spawns.is_empty());
    assert_eq!(world.status(0), ServiceStatus::Running);
    assert_eq!(world.pid(0), Some(100));

    world.wait(WaitOutcome::Exited(100, 0));
    let plan = world.tick();
    assert_eq!(world.status(0), ServiceStatus::Finished);
    assert!(plan.finished);
    assert_eq!(plan.published, vec![Event::ShutdownRequested]);
    assert!(plan.signals.is_empty());
    assert!(world.horust.all_finished());
    assert_eq!(world.horust.exit_status(&strict()), ExitStatus::Successful);
    assert_eq!(world.horust.exit_status(&strict()).code(), 0);
}

#[test]
fn failing_command_restarts_on_failure_until_it_succeeds() {
    let mut service = Service::from_command("./flaky.sh".to_string());
    service.restart_strategy = RestartStrategy::OnFailure;
    let mut world = World::new(Horust::new(vec![service.clone()], None));
    // A replica that folds every event on its own shows each status in turn.
    let mut replica = ServiceRepository::new(vec![service]);
    let mut seen = vec![replica.handler(0).unwrap().status()];
    let mut exits = 0;
    let mut codes = vec![1, 1, 1, 0].into_iter();
    for _ in 0..40 {
        for event in world.pending.clone() {
            replica.ingest(vec![event]);
            seen.push(replica.handler(0).unwrap().status());
        }
        let plan = world.tick();
        if plan.finished {
            break;
        }
        if let Some(pid) = world.pid(0) {
            let code = codes.next().unwrap();
            world.wait(WaitOutcome::Exited(pid, code));
            exits += 1;
        }
    }
    assert_eq!(exits, 4);
    assert_eq!(world.spawned.len(), 4);
    assert_eq!(world.status(0), ServiceStatus::Finished);
    assert_eq!(
        seen,
        vec![
            ServiceStatus::Initial,
            ServiceStatus::ToBeRun,
            ServiceStatus::Running,
            ServiceStatus::Initial,
            ServiceStatus::ToBeRun,
            ServiceStatus::Running,
            ServiceStatus::Initial,
            ServiceStatus::ToBeRun,
            ServiceStatus::Running,
            ServiceStatus::Initial,
            ServiceStatus::ToBeRun,
            ServiceStatus::Running,
            ServiceStatus::Finished,
        ]
    );
    assert_eq!(world.horust.exit_status(&strict()), ExitStatus::Successful);
}

#[test]
fn start_ordering() {
    let mut a = Service::from_name("a");
    a.command = "sleep 1".to_string();
    let mut b = Service::start_after("b", vec!["a"]);
    b.command = "/bin/true".to_string();
    let mut world = World::new(Horust::from_services(vec![a, b], "/etc/horust".to_string()).unwrap());

    world.tick();
    assert_eq!(world.spawned, vec!["a"]);
    assert_eq!(world.status(0), ServiceStatus::ToBeRun);
    assert_eq!(world.status(1), ServiceStatus::Initial);

    world.tick();
    assert_eq!(world.status(0), ServiceStatus::Running);
    assert_eq!(world.status(1), ServiceStatus::ToBeRun);
    assert_eq!(world.spawned, vec!["a", "b"]);

    world.tick();
    assert_eq!(world.status(1), ServiceStatus::Running);

    world.wait(WaitOutcome::Exited(101, 0));
    world.wait(WaitOutcome::Exited(100, 0));
    let plan = world.tick();
    assert_eq!(world.status(0), ServiceStatus::Finished);
    assert_eq!(world.status(1), ServiceStatus::Finished);
    assert!(plan.finished);
}

#[test]
fn sigterm_during_run() {
    let mut world = World::new(Horust::from_command("sleep 60".to_string()));
    world.tick();
    world.tick();
    assert_eq!(world.status(0), ServiceStatus::Running);

    world.pending.push(Event::ShutdownRequested);
    let plan = world.tick();
    assert_eq!(plan.signals, vec![100]);
    assert_eq!(
        plan.published,
        vec![Event::StatusChanged("sleep 60".to_string(), ServiceStatus::InKilling)]
    );
    assert!(!plan.finished);
    assert_eq!(world.status(0), ServiceStatus::InKilling);
    assert_eq!(world.pid(0), Some(100));

    let plan = world.tick();
    assert!(plan.signals.is_empty());
    assert!(plan.published.is_empty());

    world.wait(WaitOutcome::Signaled(100, 15));
    assert_eq!(world.pending, vec![Event::ServiceExited("sleep 60".to_string(), 143)]);
    let plan = world.tick();
    assert!(plan.finished);
    assert!(plan.published.is_empty());
    assert_eq!(world.status(0), ServiceStatus::FinishedFailed);
    assert_eq!(world.pid(0), None);
    assert_eq!(world.signalled, vec![100]);
    assert_eq!(world.horust.exit_status(&strict()), ExitStatus::SomeServiceFailed);
    assert_eq!(world.horust.exit_status(&strict()).code(), 1);
    assert_eq!(world.horust.exit_status(&HorustConfig::default()), ExitStatus::Successful);
}

#[test]
fn shutdown_finishes_services_that_never_started() {
    let mut world = World::new(
        Horust::new(vec![Service::from_name("a"), Service::start_after("b", vec!["a"])], None),
    );
    world.pending.push(Event::ShutdownRequested);
    let plan = world.tick();
    assert!(plan.spawns.is_empty());
    assert!(plan.signals.is_empty());
    assert!(plan.finished);
    assert_eq!(
        plan.published,
        vec![
            Event::StatusChanged("a".to_string(), ServiceStatus::Finished),
            Event::StatusChanged("b".to_string(), ServiceStatus::Finished),
        ]
    );
    assert_eq!(world.status(0), ServiceStatus::Finished);
    assert_eq!(world.status(1), ServiceStatus::Finished);
}

#[test]
fn shutdown_does_not_restart_an_always_service() {
    let mut service = Service::from_command("sleep 60".to_string());
    service.restart_strategy = RestartStrategy::Always;
    let mut world = World::new(Horust::new(vec![service], None));
    world.tick();
    world.tick();
    world.pending.push(Event::ShutdownRequested);
    world.tick();
    world.wait(WaitOutcome::Exited(100, 0));
    let plan = world.tick();
    assert!(plan.finished);
    assert!(plan.spawns.is_empty());
    assert_eq!(world.status(0), ServiceStatus::Finished);
    assert_eq!(world.spawned.len(), 1);
}

#[test]
fn zombie_reaping() {
    let mut world = World::new(Horust::from_command("./daemonize.sh".to_string()));
    world.tick();
    world.tick();
    let repo = world.horust.repository();
    let outcomes = vec![
        WaitOutcome::Exited(4242, 0),
        WaitOutcome::Signaled(4243, 9),
        WaitOutcome::Exited(100, 0),
        WaitOutcome::StillAlive,
        WaitOutcome::Exited(100, 3),
    ];
    let events = reaper::run(repo, &outcomes, 20);
    assert_eq!(events, vec![Event::ServiceExited("./daemonize.sh".to_string(), 0)]);

    let orphan = reaper::step(repo, WaitOutcome::Exited(4242, 0));
    assert_eq!(orphan.event, None);
    assert!(orphan.proceed);
}

#[test]
fn unhealthy_restart() {
    let mut service = Service::from_command("./server".to_string());
    service.restart_strategy = RestartStrategy::Always;
    service.healthcheck = Some(Healthcheck {
        http_endpoint: Some("http://localhost:8080/health".to_string()),
        file_path: None,
        command: None,
    });
    let mut world = World::new(Horust::new(vec![service.clone()], None));
    assert!(healthcheck::probe_targets(world.horust.repository()).is_empty());
    world.tick();
    world.tick();
    assert_eq!(world.status(0), ServiceStatus::Running);
    assert_eq!(healthcheck::probe_targets(world.horust.repository()), vec![service]);

    assert_eq!(healthcheck::evaluate("./server", true, true), None);
    let report = healthcheck::evaluate("./server", true, false).unwrap();
    assert_eq!(report, Event::ServiceUnhealthy("./server".to_string()));
    world.pending.push(report);
    let plan = world.tick();
    assert_eq!(plan.signals, vec![100]);
    assert_eq!(world.status(0), ServiceStatus::InKilling);
    assert!(healthcheck::probe_targets(world.horust.repository()).is_empty());

    world.wait(WaitOutcome::Signaled(100, 15));
    let plan = world.tick();
    assert_eq!(plan.spawns.len(), 1);
    assert_eq!(world.status(0), ServiceStatus::ToBeRun);
    world.tick();
    assert_eq!(world.status(0), ServiceStatus::Running);
    assert_eq!(world.pid(0), Some(101));
    assert_eq!(world.spawned.len(), 2);
}

#[test]
fn failed_spawn_is_final() {
    let mut horust = Horust::from_command("./missing".to_string());
    horust.tick(vec![]);
    let mut repo = horust.repository().clone();
    let published = spawner::report_spawn(&mut repo, "./missing".to_string(), None);
    assert_eq!(published, Event::StatusChanged("./missing".to_string(), ServiceStatus::Failed));
    assert_eq!(repo.handler(0).unwrap().status(), ServiceStatus::Failed);
    let plan = horust.tick(vec![published]);
    assert!(plan.finished);
    assert!(plan.spawns.is_empty());
    assert_eq!(horust.exit_status(&strict()), ExitStatus::Successful);
}

#[test]
fn successful_spawn_is_only_announced() {
    let mut horust = Horust::from_command("/bin/true".to_string());
    horust.tick(vec![]);
    let mut repo = horust.repository().clone();
    let published = spawner::report_spawn(&mut repo, "/bin/true".to_string(), Some(55));
    assert_eq!(published, Event::ServicePidAssigned("/bin/true".to_string(), 55));
    assert_eq!(repo.handler(0).unwrap().status(), ServiceStatus::ToBeRun);
    assert_eq!(repo.handler(0).unwrap().pid(), None);
}

#[test]
fn services_of_a_directory_are_fetched_and_validated() {
    let files = vec![
        LoadedFile { file_name: "a.toml".to_string(), definition: Some(Service::from_name("")) },
        LoadedFile { file_name: "broken.toml".to_string(), definition: None },
        LoadedFile {
            file_name: "b.toml".to_string(),
            definition: Some(Service::start_after("b", vec!["a.toml"])),
        },
    ];
    let horust = Horust::from_services_dir("/etc/horust/services".to_string(), files).unwrap();
    assert_eq!(horust.repository().len(), 2);
    assert_eq!(horust.repository().handler(0).unwrap().name(), "a.toml");
    assert_eq!(horust.repository().handler(1).unwrap().name(), "b");

    let files = vec![
        LoadedFile { file_name: "a.toml".to_string(), definition: Some(Service::from_name("")) },
        LoadedFile {
            file_name: "b.toml".to_string(),
            definition: Some(Service::start_after("b", vec!["a"])),
        },
    ];
    assert_eq!(
        Horust::from_services_dir("/etc/horust/services".to_string(), files),
        Err(ValidationError::UnknownStartAfter(1))
    );
}

#[test]
fn invalid_services_are_refused() {
    let loaded = Horust::from_services(
        vec![Service::from_name("a"), Service::from_name("a")],
        "/etc/horust".to_string(),
    );
    assert_eq!(loaded, Err(ValidationError::DuplicateName(1)));
}

#[test]
fn a_service_is_healthy_unless_a_probe_failed() {
    let none = ProbeResults { http: None, file: None, command: None };
    assert!(none.is_healthy());
    assert!(ProbeResults { http: Some(true), file: Some(true), command: None }.is_healthy());
    assert!(!ProbeResults { http: Some(false), ..none }.is_healthy());
    assert!(!ProbeResults { file: Some(false), ..none }.is_healthy());
    assert!(!ProbeResults { http: Some(true), file: Some(true), command: Some(false) }.is_healthy());
}

#[test]
fn health_is_reported_only_when_it_changes() {
    assert_eq!(healthcheck::evaluate("a", true, true), None);
    assert_eq!(healthcheck::evaluate("a", false, false), None);
    assert_eq!(
        healthcheck::evaluate("a", true, false),
        Some(Event::ServiceUnhealthy("a".to_string()))
    );
    assert_eq!(
        healthcheck::evaluate("a", false, true),
        Some(Event::ServiceHealthy("a".to_string()))
    );
}
