use horust::bus::Bus;
use horust::formats::{Event, ServiceStatus};

fn changed(name: &str, status: ServiceStatus) -> Event {
    Event::StatusChanged(name.to_string(), status)
}

#[test]
fn subscribers_are_numbered_in_order() {
    let mut bus = Bus::new();
    assert_eq!(bus.subscriber_count(), 0);
    assert_eq!(bus.add_subscriber(), Some(0));
    assert_eq!(bus.add_subscriber(), Some(1));
    assert_eq!(bus.add_subscriber(), Some(2));
    assert_eq!(bus.subscriber_count(), 3);
}

#[test]
fn late_subscription_is_refused() {
    let mut bus = Bus::new();
    bus.add_subscriber();
    bus.run();
    assert_eq!(bus.add_subscriber(), None);
    assert_eq!(bus.subscriber_count(), 1);
}

#[test]
fn published_event_reaches_every_subscriber_once() {
    let mut bus = Bus::new();
    let a = bus.add_subscriber().unwrap();
    let b = bus.add_subscriber().unwrap();
    bus.publish(changed("x", ServiceStatus::ToBeRun));
    assert_eq!(bus.receive(a), vec![changed("x", ServiceStatus::ToBeRun)]);
    assert_eq!(bus.receive(a), vec![]);
    bus.publish(Event::ShutdownRequested);
    assert_eq!(bus.receive(a), vec![Event::ShutdownRequested]);
    assert_eq!(
        bus.receive(b),
        vec![changed("x", ServiceStatus::ToBeRun), Event::ShutdownRequested]
    );
    assert_eq!(bus.receive(b), vec![]);
}

#[test]
fn sent_events_are_broadcast_by_run_to_everyone_including_the_sender() {
    let mut bus = Bus::new();
    let a = bus.add_subscriber().unwrap();
    let b = bus.add_subscriber().unwrap();
    assert!(bus.send(b, changed("b1", ServiceStatus::ToBeRun)));
    assert!(bus.send(a, changed("a1", ServiceStatus::ToBeRun)));
    assert!(bus.send(b, changed("b2", ServiceStatus::Running)));
    assert_eq!(bus.receive(a), vec![]);
    assert!(!bus.run());
    let expected = vec![
        changed("a1", ServiceStatus::ToBeRun),
        changed("b1", ServiceStatus::ToBeRun),
        changed("b2", ServiceStatus::Running),
    ];
    assert_eq!(bus.receive(a), expected);
    assert_eq!(bus.receive(b), expected);
    assert!(!bus.run());
    assert_eq!(bus.receive(a), vec![]);
}

#[test]
fn all_subscribers_observe_the_same_order() {
    let mut bus = Bus::new();
    let ids: Vec<usize> = (0..3).map(|_| bus.add_subscriber().unwrap()).collect();
    let mut seen: Vec<Vec<Event>> = vec![vec![], vec![], vec![]];
    for round in 0..4 {
        for id in ids.iter() {
            bus.send(*id, Event::ServiceExited(format!("s{}", id), round));
        }
        seen[round as usize % 3].extend(bus.receive(round as usize % 3));
        bus.run();
    }
    for id in ids.iter() {
        seen[*id].extend(bus.receive(*id));
    }
    assert_eq!(seen[0].len(), 12);
    assert_eq!(seen[0], seen[1]);
    assert_eq!(seen[1], seen[2]);
    assert_eq!(seen[0][0], Event::ServiceExited("s0".to_string(), 0));
    assert_eq!(seen[0][4], Event::ServiceExited("s1".to_string(), 1));
}

#[test]
fn send_is_refused_for_unknown_and_disconnected_subscribers() {
    let mut bus = Bus::new();
    let a = bus.add_subscriber().unwrap();
    assert!(!bus.send(7, Event::ShutdownRequested));
    bus.disconnect(a);
    assert!(!bus.send(a, Event::ShutdownRequested));
    bus.run();
    assert_eq!(bus.receive(a), vec![]);
    assert_eq!(bus.receive(7), vec![]);
    bus.disconnect(7);
}

#[test]
fn bus_is_done_after_shutdown_when_drained_and_deserted() {
    let mut bus = Bus::new();
    let a = bus.add_subscriber().unwrap();
    let b = bus.add_subscriber().unwrap();
    assert!(!bus.is_finished());
    bus.send(a, Event::ShutdownRequested);
    assert!(!bus.shutdown_broadcast());
    assert!(!bus.run());
    assert!(bus.shutdown_broadcast());
    bus.send(b, changed("x", ServiceStatus::Finished));
    bus.disconnect(a);
    bus.disconnect(b);
    assert!(!bus.is_finished());
    assert!(bus.run());
    assert!(bus.is_finished());
    assert_eq!(
        bus.receive(b),
        vec![Event::ShutdownRequested, changed("x", ServiceStatus::Finished)]
    );
}

#[test]
fn bus_without_shutdown_request_is_never_done() {
    let mut bus = Bus::new();
    let a = bus.add_subscriber().unwrap();
    bus.disconnect(a);
    assert!(!bus.run());
    let mut empty = Bus::new();
    assert!(!empty.run());
    empty.publish(Event::ShutdownRequested);
    assert!(empty.run());
}

#[test]
fn bus_ends_when_the_scheduler_disconnects() {
    let mut bus = Bus::new();
    let reaper = bus.add_subscriber().unwrap();
    let scheduler = bus.add_scheduler().unwrap();
    assert_eq!(scheduler, 1);
    assert_eq!(bus.add_scheduler(), None);
    assert_eq!(bus.subscriber_count(), 2);
    assert!(!bus.scheduler_left());
    assert!(!bus.run());
    bus.send(scheduler, changed("x", ServiceStatus::Finished));
    bus.disconnect(scheduler);
    assert!(bus.scheduler_left());
    assert!(!bus.is_drained());
    assert!(!bus.is_finished());
    assert!(bus.run());
    assert!(!bus.shutdown_broadcast());
    assert!(!bus.is_deserted());
    assert_eq!(bus.receive(reaper), vec![changed("x", ServiceStatus::Finished)]);
}

#[test]
fn scheduler_cannot_join_a_running_bus() {
    let mut bus = Bus::new();
    bus.run();
    assert_eq!(bus.add_scheduler(), None);
    assert!(!bus.scheduler_left());
}
