use dendrite::workers::{join_step, JoinAction, JoinEvent, JoinPhase, WorkerCommand, WorkerRegistry};

#[test]
fn worker_registry_tracks_running_workers() {
    let mut r: WorkerRegistry<&str> = WorkerRegistry::new();
    assert!(!r.has_workers());
    r.insert(1, "commands");
    r.insert(2, "events");
    r.insert(1, "commands again");
    let mut ids = r.worker_ids();
    ids.sort();
    assert_eq!(ids, vec![1, 2]);
    assert_eq!(r.get(1), Some(&"commands again"));
    r.remove_worker(1);
    r.remove_worker(99);
    assert_eq!(r.worker_ids(), vec![2]);
    assert!(r.has_workers());
    assert_eq!(r.get(1), None);
}

#[test]
fn joining_stops_all_workers() {
    let mut r: WorkerRegistry<()> = WorkerRegistry::new();
    r.insert(10, ());
    r.insert(20, ());
    r.insert(30, ());
    let mut phase = JoinPhase::Start;
    assert!(matches!(join_step(&mut phase, &mut r, JoinEvent::Begin), JoinAction::AwaitStoppedOrSignal));
    // Worker 20 stops by itself: the others are told to stop.
    match join_step(&mut phase, &mut r, JoinEvent::WorkerStopped(20)) {
        JoinAction::SendStops(mut ids) => {
            ids.sort();
            assert_eq!(ids, vec![10, 30])
        },
        other => panic!("unexpected {:?}", other),
    }
    assert!(matches!(join_step(&mut phase, &mut r, JoinEvent::StopsSent), JoinAction::AwaitStopped));
    assert!(matches!(join_step(&mut phase, &mut r, JoinEvent::WorkerStopped(30)), JoinAction::AwaitStopped));
    assert!(matches!(join_step(&mut phase, &mut r, JoinEvent::WorkerStopped(10)), JoinAction::Finished));
    assert_eq!(phase, JoinPhase::Done);
    assert!(!r.has_workers());
}

#[test]
fn joining_without_workers_finishes_at_once() {
    let mut r: WorkerRegistry<()> = WorkerRegistry::new();
    let mut phase = JoinPhase::Start;
    assert!(matches!(join_step(&mut phase, &mut r, JoinEvent::Begin), JoinAction::Finished));
    assert_eq!(phase, JoinPhase::Done);
}

#[test]
fn termination_signal_stops_every_worker() {
    let mut r: WorkerRegistry<()> = WorkerRegistry::new();
    r.insert(1, ());
    let mut phase = JoinPhase::Start;
    join_step(&mut phase, &mut r, JoinEvent::Begin);
    // A signal is reported as the stop of an unregistered worker.
    match join_step(&mut phase, &mut r, JoinEvent::WorkerStopped(12345)) {
        JoinAction::SendStops(ids) => assert_eq!(ids, vec![1]),
        other => panic!("unexpected {:?}", other),
    }
    assert!(matches!(join_step(&mut phase, &mut r, JoinEvent::StopsSent), JoinAction::AwaitStopped));
    assert!(matches!(join_step(&mut phase, &mut r, JoinEvent::WorkerStopped(1)), JoinAction::Finished));
    assert_ne!(WorkerCommand::Unsubscribe, WorkerCommand::Stop);
}

#[test]
fn last_worker_stopping_first_ends_after_stops_sent() {
    let mut r: WorkerRegistry<()> = WorkerRegistry::new();
    r.insert(7, ());
    let mut phase = JoinPhase::Start;
    join_step(&mut phase, &mut r, JoinEvent::Begin);
    match join_step(&mut phase, &mut r, JoinEvent::WorkerStopped(7)) {
        JoinAction::SendStops(ids) => assert!(ids.is_empty()),
        other => panic!("unexpected {:?}", other),
    }
    assert!(matches!(join_step(&mut phase, &mut r, JoinEvent::StopsSent), JoinAction::Finished));
}
