use horust::escalation::{Escalation, KillWatch, KILL_TIMEOUT_MS};
use horust::formats::{Event, Service, ServiceStatus};
use horust::repository::ServiceRepository;

fn killing(names: &[(&str, i32)]) -> ServiceRepository {
    let mut repo =
        ServiceRepository::new(names.iter().map(|(n, _)| Service::from_name(n)).collect());
    for (name, pid) in names {
        repo.ingest(vec![
            Event::StatusChanged(name.to_string(), ServiceStatus::ToBeRun),
            Event::ServicePidAssigned(name.to_string(), *pid),
            Event::StatusChanged(name.to_string(), ServiceStatus::InKilling),
        ]);
    }
    repo
}

#[test]
fn kill_timeout_is_ten_seconds() {
    assert_eq!(KILL_TIMEOUT_MS, 10_000);
}

#[test]
fn watch_starts_on_first_observation_and_escalates_after_the_timeout() {
    let idle = KillWatch::Idle;
    assert_eq!(idle.observe(Some(7), 500), (KillWatch::Waiting(500), None));
    let waiting = KillWatch::Waiting(500);
    assert_eq!(waiting.observe(Some(7), 500), (waiting, None));
    assert_eq!(waiting.observe(Some(7), 10_499), (waiting, None));
    assert_eq!(waiting.observe(Some(7), 10_500), (KillWatch::Escalated, Some(7)));
    assert_eq!(waiting.observe(Some(7), u64::MAX), (KillWatch::Escalated, Some(7)));
    assert_eq!(KillWatch::Escalated.observe(Some(7), 99_000), (KillWatch::Escalated, None));
}

#[test]
fn watch_is_dropped_when_the_service_is_no_longer_being_killed() {
    assert_eq!(KillWatch::Waiting(500).observe(None, 20_000), (KillWatch::Idle, None));
    assert_eq!(KillWatch::Escalated.observe(None, 20_000), (KillWatch::Idle, None));
    assert_eq!(KillWatch::Idle.observe(None, 20_000), (KillWatch::Idle, None));
}

#[test]
fn clock_that_went_back_does_not_escalate() {
    let waiting = KillWatch::Waiting(50_000);
    assert_eq!(waiting.observe(Some(7), 10), (waiting, None));
}

#[test]
fn escalation_kills_what_outlives_the_timeout() {
    let mut repo = killing(&[("a", 10), ("b", 11)]);
    let mut escalation = Escalation::new();
    assert_eq!(escalation.observe(&repo, 1_000), vec![]);
    assert_eq!(escalation.observe(&repo, 5_000), vec![]);
    repo.ingest(vec![Event::ServiceExited("a".to_string(), 0)]);
    assert_eq!(escalation.observe(&repo, 11_000), vec![11]);
    assert_eq!(escalation.observe(&repo, 30_000), vec![]);
}

#[test]
fn escalation_ignores_services_that_are_not_being_killed() {
    let mut repo = ServiceRepository::new(vec![Service::from_name("a"), Service::from_name("b")]);
    repo.ingest(vec![
        Event::StatusChanged("a".to_string(), ServiceStatus::ToBeRun),
        Event::ServicePidAssigned("a".to_string(), 10),
        Event::StatusChanged("b".to_string(), ServiceStatus::InKilling),
    ]);
    let mut escalation = Escalation::new();
    assert_eq!(escalation.observe(&repo, 0), vec![]);
    assert_eq!(escalation.observe(&repo, 60_000), vec![]);
    repo.ingest(vec![Event::ServiceUnhealthy("a".to_string())]);
    assert_eq!(escalation.observe(&repo, 61_000), vec![]);
    assert_eq!(escalation.observe(&repo, 70_999), vec![]);
    assert_eq!(escalation.observe(&repo, 71_000), vec![10]);
}

#[test]
fn supervisor_escalates_a_kill_that_takes_too_long() {
    let mut horust = horust::Horust::from_command("sleep 60".to_string());
    horust.tick(vec![]);
    horust.tick(vec![Event::ServicePidAssigned("sleep 60".to_string(), 10)]);
    assert_eq!(horust.escalate(0), vec![]);
    let plan = horust.tick(vec![Event::ShutdownRequested]);
    assert_eq!(plan.signals, vec![10]);
    assert_eq!(horust.escalate(1_000), vec![]);
    assert_eq!(horust.escalate(10_999), vec![]);
    assert_eq!(horust.escalate(11_000), vec![10]);
    assert_eq!(horust.escalate(12_000), vec![]);
    let plan = horust.tick(vec![Event::ServiceExited("sleep 60".to_string(), 137)]);
    assert!(plan.finished);
    assert_eq!(horust.escalate(30_000), vec![]);
}
