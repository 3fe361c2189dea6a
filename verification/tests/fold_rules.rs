use horust::formats::{Event, RestartStrategy, Service, ServiceStatus};
use horust::repository::ServiceRepository;
use horust::service_handler::ServiceHandler;

fn service(name: &str, restart: RestartStrategy) -> Service {
    let mut s = Service::from_name(name);
    s.command = "/bin/true".to_string();
    s.restart_strategy = restart;
    s
}

fn handler_in(name: &str, restart: RestartStrategy, events: Vec<Event>) -> ServiceHandler {
    let mut h = ServiceHandler::new(service(name, restart));
    for e in events.iter() {
        h.apply(e, false);
    }
    h
}

fn to_be_run(name: &str) -> Event {
    Event::StatusChanged(name.to_string(), ServiceStatus::ToBeRun)
}

fn assigned(name: &str, pid: i32) -> Event {
    Event::ServicePidAssigned(name.to_string(), pid)
}

fn exited(name: &str, code: i32) -> Event {
    Event::ServiceExited(name.to_string(), code)
}

#[test]
fn fresh_handler_is_initial_without_pid() {
    let h = ServiceHandler::new(service("a", RestartStrategy::Never));
    assert_eq!(h.status(), ServiceStatus::Initial);
    assert_eq!(h.pid(), None);
    assert_eq!(h.name(), "a");
    assert!(h.is_initial());
    assert!(!h.is_terminal());
}

#[test]
fn pid_is_accepted_only_when_to_be_run_or_starting() {
    let h = handler_in("a", RestartStrategy::Never, vec![assigned("a", 7)]);
    assert_eq!(h.status(), ServiceStatus::Initial);
    assert_eq!(h.pid(), None);

    let h = handler_in("a", RestartStrategy::Never, vec![to_be_run("a"), assigned("a", 7)]);
    assert_eq!(h.status(), ServiceStatus::Running);
    assert_eq!(h.pid(), Some(7));

    let starting = Event::StatusChanged("a".to_string(), ServiceStatus::Starting);
    let h = handler_in("a", RestartStrategy::Never, vec![starting, assigned("a", 8)]);
    assert_eq!(h.status(), ServiceStatus::Running);
    assert_eq!(h.pid(), Some(8));
}

#[test]
fn pid_is_set_only_when_unset() {
    let h = handler_in(
        "a",
        RestartStrategy::Never,
        vec![to_be_run("a"), assigned("a", 7), assigned("a", 9)],
    );
    assert_eq!(h.pid(), Some(7));
    assert_eq!(h.status(), ServiceStatus::Running);
}

#[test]
fn events_for_another_service_are_ignored() {
    let h = handler_in(
        "a",
        RestartStrategy::Never,
        vec![to_be_run("b"), assigned("b", 7), exited("b", 1)],
    );
    assert_eq!(h.status(), ServiceStatus::Initial);
    assert_eq!(h.pid(), None);
}

#[test]
fn status_change_never_leaves_a_terminal_status() {
    for terminal in [ServiceStatus::Finished, ServiceStatus::FinishedFailed, ServiceStatus::Failed] {
        for next in [
            ServiceStatus::Initial,
            ServiceStatus::ToBeRun,
            ServiceStatus::Starting,
            ServiceStatus::Running,
            ServiceStatus::InKilling,
            ServiceStatus::Finished,
            ServiceStatus::FinishedFailed,
            ServiceStatus::Failed,
        ] {
            let h = handler_in(
                "a",
                RestartStrategy::Always,
                vec![
                    Event::StatusChanged("a".to_string(), terminal),
                    Event::StatusChanged("a".to_string(), next),
                    to_be_run("a"),
                    assigned("a", 3),
                    exited("a", 0),
                    Event::ServiceUnhealthy("a".to_string()),
                ],
            );
            assert_eq!(h.status(), terminal);
            assert_eq!(h.pid(), None);
        }
    }
}

#[test]
fn status_change_drops_the_pid_when_the_new_status_cannot_hold_one() {
    let h = handler_in(
        "a",
        RestartStrategy::Never,
        vec![
            to_be_run("a"),
            assigned("a", 7),
            Event::StatusChanged("a".to_string(), ServiceStatus::Initial),
        ],
    );
    assert_eq!(h.status(), ServiceStatus::Initial);
    assert_eq!(h.pid(), None);

    let h = handler_in(
        "a",
        RestartStrategy::Never,
        vec![
            to_be_run("a"),
            assigned("a", 7),
            Event::StatusChanged("a".to_string(), ServiceStatus::InKilling),
        ],
    );
    assert_eq!(h.status(), ServiceStatus::InKilling);
    assert_eq!(h.pid(), Some(7));
}

#[test]
fn restart_policy_decides_the_status_after_an_exit() {
    let cases = [
        (RestartStrategy::Never, 0, ServiceStatus::Finished),
        (RestartStrategy::Never, 1, ServiceStatus::FinishedFailed),
        (RestartStrategy::Never, -1, ServiceStatus::FinishedFailed),
        (RestartStrategy::OnFailure, 0, ServiceStatus::Finished),
        (RestartStrategy::OnFailure, 1, ServiceStatus::Initial),
        (RestartStrategy::Always, 0, ServiceStatus::Initial),
        (RestartStrategy::Always, 143, ServiceStatus::Initial),
    ];
    for (restart, code, expected) in cases {
        assert_eq!(restart.on_exit(code, false), expected);
        let h = handler_in("a", restart, vec![to_be_run("a"), assigned("a", 7), exited("a", code)]);
        assert_eq!(h.status(), expected);
        assert_eq!(h.pid(), None);
    }
}

#[test]
fn while_shutting_down_every_exit_is_final() {
    for restart in [RestartStrategy::Never, RestartStrategy::OnFailure, RestartStrategy::Always] {
        assert_eq!(restart.on_exit(0, true), ServiceStatus::Finished);
        assert_eq!(restart.on_exit(1, true), ServiceStatus::FinishedFailed);
        let mut h = handler_in("a", restart, vec![to_be_run("a"), assigned("a", 7)]);
        h.apply(&exited("a", 9), true);
        assert_eq!(h.status(), ServiceStatus::FinishedFailed);
        assert_eq!(h.pid(), None);
    }
}

#[test]
fn exit_without_pid_is_ignored() {
    let h = handler_in("a", RestartStrategy::Never, vec![exited("a", 1)]);
    assert_eq!(h.status(), ServiceStatus::Initial);
    let h = handler_in("a", RestartStrategy::Never, vec![to_be_run("a"), exited("a", 1)]);
    assert_eq!(h.status(), ServiceStatus::ToBeRun);
}

#[test]
fn unhealthy_report_kills_a_running_service() {
    let mut h = handler_in("a", RestartStrategy::Never, vec![to_be_run("a"), assigned("a", 7)]);
    let signal = h.apply(&Event::ServiceUnhealthy("a".to_string()), false);
    assert_eq!(signal, Some(7));
    assert_eq!(h.status(), ServiceStatus::InKilling);
    assert_eq!(h.pid(), Some(7));
    let signal = h.apply(&Event::ServiceUnhealthy("a".to_string()), false);
    assert_eq!(signal, None);
    assert_eq!(h.status(), ServiceStatus::InKilling);
}

#[test]
fn unhealthy_report_is_ignored_unless_running() {
    let mut h = handler_in("a", RestartStrategy::Never, vec![to_be_run("a")]);
    let signal = h.apply(&Event::ServiceUnhealthy("a".to_string()), false);
    assert_eq!(signal, None);
    assert_eq!(h.status(), ServiceStatus::ToBeRun);
}

#[test]
fn healthy_report_and_shutdown_request_leave_a_handler_alone() {
    let mut h = handler_in("a", RestartStrategy::Never, vec![to_be_run("a"), assigned("a", 7)]);
    assert_eq!(h.apply(&Event::ServiceHealthy("a".to_string()), false), None);
    assert_eq!(h.apply(&Event::ShutdownRequested, false), None);
    assert_eq!(h.status(), ServiceStatus::Running);
    assert_eq!(h.pid(), Some(7));
}

#[test]
fn pid_is_held_only_while_running_or_in_killing() {
    let statuses = [
        ServiceStatus::Initial,
        ServiceStatus::ToBeRun,
        ServiceStatus::Starting,
        ServiceStatus::Running,
        ServiceStatus::InKilling,
        ServiceStatus::Finished,
        ServiceStatus::FinishedFailed,
        ServiceStatus::Failed,
    ];
    for first in statuses {
        for second in statuses {
            let h = handler_in(
                "a",
                RestartStrategy::OnFailure,
                vec![
                    to_be_run("a"),
                    assigned("a", 7),
                    Event::StatusChanged("a".to_string(), first),
                    assigned("a", 8),
                    Event::StatusChanged("a".to_string(), second),
                ],
            );
            if h.pid().is_some() {
                assert!(matches!(h.status(), ServiceStatus::Running | ServiceStatus::InKilling));
            }
        }
    }
}

#[test]
fn repository_starts_fresh() {
    let repo = ServiceRepository::new(vec![
        service("a", RestartStrategy::Never),
        service("b", RestartStrategy::Always),
    ]);
    assert_eq!(repo.len(), 2);
    assert!(!repo.is_shutting_down());
    assert!(!repo.is_any_running());
    assert!(!repo.all_terminal());
    let a = repo.handler(0).unwrap();
    assert_eq!(a.name(), "a");
    assert_eq!(a.status(), ServiceStatus::Initial);
    assert_eq!(a.pid(), None);
    assert!(repo.handler(2).is_none());
}

#[test]
fn an_empty_repository_is_all_terminal() {
    let repo = ServiceRepository::new(vec![]);
    assert!(repo.all_terminal());
    assert!(!repo.is_any_running());
    assert!(repo.get_runnable().is_empty());
}

#[test]
fn ingest_folds_events_in_order() {
    let mut repo = ServiceRepository::new(vec![
        service("a", RestartStrategy::Never),
        service("b", RestartStrategy::Always),
    ]);
    let signals = repo.ingest(vec![
        to_be_run("a"),
        to_be_run("b"),
        assigned("a", 10),
        assigned("b", 11),
        Event::ServiceUnhealthy("b".to_string()),
        exited("a", 0),
    ]);
    assert_eq!(signals, vec![11]);
    assert_eq!(repo.handler(0).unwrap().status(), ServiceStatus::Finished);
    assert_eq!(repo.handler(0).unwrap().pid(), None);
    assert_eq!(repo.handler(1).unwrap().status(), ServiceStatus::InKilling);
    assert_eq!(repo.handler(1).unwrap().pid(), Some(11));
    assert!(!repo.is_any_running());
    assert!(!repo.all_terminal());
}

#[test]
fn shutdown_request_is_remembered() {
    let mut repo = ServiceRepository::new(vec![service("a", RestartStrategy::Always)]);
    repo.ingest(vec![to_be_run("a"), assigned("a", 10), Event::ShutdownRequested]);
    assert!(repo.is_shutting_down());
    repo.ingest(vec![exited("a", 0)]);
    assert_eq!(repo.handler(0).unwrap().status(), ServiceStatus::Finished);
    assert!(repo.all_terminal());
}

#[test]
fn same_events_give_the_same_state() {
    let services = || vec![service("a", RestartStrategy::OnFailure), service("b", RestartStrategy::Never)];
    let events = || {
        vec![
            to_be_run("a"),
            assigned("a", 10),
            to_be_run("b"),
            exited("a", 1),
            assigned("b", 11),
            Event::ServiceUnhealthy("b".to_string()),
            to_be_run("a"),
            exited("b", 137),
        ]
    };
    let mut first = ServiceRepository::new(services());
    let mut second = ServiceRepository::new(services());
    first.ingest(events());
    for e in events() {
        second.ingest(vec![e]);
    }
    assert_eq!(first, second);
    assert_eq!(first.handler(0).unwrap().status(), ServiceStatus::ToBeRun);
    assert_eq!(first.handler(1).unwrap().status(), ServiceStatus::FinishedFailed);
}

#[test]
fn applying_the_same_exit_twice_is_applying_it_once() {
    let mut once = ServiceRepository::new(vec![service("a", RestartStrategy::OnFailure)]);
    once.ingest(vec![to_be_run("a"), assigned("a", 10), exited("a", 1)]);
    let mut twice = ServiceRepository::new(vec![service("a", RestartStrategy::OnFailure)]);
    twice.ingest(vec![to_be_run("a"), assigned("a", 10), exited("a", 1), exited("a", 1)]);
    assert_eq!(once, twice);
    assert_eq!(once.handler(0).unwrap().status(), ServiceStatus::Initial);
}

#[test]
fn reapplying_a_status_change_is_a_no_op() {
    let mut once = ServiceRepository::new(vec![service("a", RestartStrategy::Never)]);
    once.ingest(vec![to_be_run("a")]);
    let mut twice = ServiceRepository::new(vec![service("a", RestartStrategy::Never)]);
    twice.ingest(vec![to_be_run("a"), to_be_run("a")]);
    assert_eq!(once, twice);
}

#[test]
fn update_status_publishes_and_updates_locally() {
    let mut repo = ServiceRepository::new(vec![service("a", RestartStrategy::Never)]);
    let published = repo.update_status("a", ServiceStatus::ToBeRun);
    assert_eq!(published, to_be_run("a"));
    assert_eq!(repo.handler(0).unwrap().status(), ServiceStatus::ToBeRun);
}

#[test]
fn update_pid_only_publishes() {
    let mut repo = ServiceRepository::new(vec![service("a", RestartStrategy::Never)]);
    repo.update_status("a", ServiceStatus::ToBeRun);
    let published = repo.update_pid("a".to_string(), 42);
    assert_eq!(published, assigned("a", 42));
    assert_eq!(repo.handler(0).unwrap().pid(), None);
    repo.ingest(vec![published]);
    assert_eq!(repo.handler(0).unwrap().pid(), Some(42));
    assert!(repo.is_any_running());
}

#[test]
fn service_is_found_by_its_pid() {
    let mut repo = ServiceRepository::new(vec![
        service("a", RestartStrategy::Never),
        service("b", RestartStrategy::Never),
    ]);
    repo.ingest(vec![to_be_run("a"), to_be_run("b"), assigned("a", 10), assigned("b", 11)]);
    assert_eq!(repo.get_service_by_pid(10), Some("a".to_string()));
    assert_eq!(repo.get_service_by_pid(11), Some("b".to_string()));
    assert_eq!(repo.get_service_by_pid(12), None);
    repo.ingest(vec![exited("a", 0)]);
    assert_eq!(repo.get_service_by_pid(10), None);
}

#[test]
fn pids_of_handlers_stay_distinct() {
    let mut repo = ServiceRepository::new(vec![
        service("a", RestartStrategy::Always),
        service("b", RestartStrategy::Always),
    ]);
    repo.ingest(vec![
        to_be_run("a"),
        to_be_run("b"),
        assigned("a", 10),
        assigned("b", 11),
        exited("a", 0),
        to_be_run("a"),
        assigned("a", 12),
    ]);
    let a = repo.handler(0).unwrap().pid();
    let b = repo.handler(1).unwrap().pid();
    assert_eq!(a, Some(12));
    assert_eq!(b, Some(11));
    assert_ne!(a, b);
}
