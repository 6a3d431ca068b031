use dendrite::aggregate::{
    command_payload_data, emit, emit_events, emit_events_and_response, empty_aggregate_registry,
    handled_command, new_events_applied, store_position, AggregateState,
};
use dendrite::command_submit::serialize_command;
use dendrite::command_worker::CommandError;
use dendrite::messages::{Command, SerializedObject};
use dendrite::text_map::TextMap;

fn command(payload: Option<SerializedObject>) -> Command {
    Command {
        message_identifier: "m".to_string(),
        name: "GreetCommand".to_string(),
        timestamp: 0,
        payload,
        meta_data: TextMap::new(),
        processing_instructions: vec![],
        client_id: "c".to_string(),
        component_name: "n".to_string(),
    }
}

#[test]
fn emitted_events_keep_their_order() {
    let mut holder = emit_events::<u32>();
    emit(&mut holder, "A", 1);
    emit(&mut holder, "B", 2);
    let events = holder.events();
    assert_eq!(events.len(), 2);
    assert_eq!(events[0], ("A".to_string(), 1));
    assert_eq!(events[1], ("B".to_string(), 2));
    assert!(holder.response().is_none());
}

#[test]
fn response_is_serialized_with_empty_revision() {
    let holder = emit_events_and_response::<u32>("Greeting", vec![1, 2]);
    let r = holder.response().as_ref().unwrap();
    assert_eq!(r.payload_type, "Greeting");
    assert_eq!(r.revision, "");
    assert_eq!(r.data, vec![1, 2]);
    assert!(holder.events().is_empty());
}

#[test]
fn a_command_addresses_one_aggregate() {
    let mut state: AggregateState<String, u8> = AggregateState::new(String::new());
    assert!(state.claim_aggregate_id("a-1").is_ok());
    assert!(state.claim_aggregate_id("a-1").is_ok());
    match state.claim_aggregate_id("a-2") {
        Err(CommandError::InconsistentAggregateId(asked, existing)) => {
            assert_eq!(asked, "a-2");
            assert_eq!(existing, "a-1");
        },
        other => panic!("unexpected {:?}", other.is_ok()),
    }
    assert_eq!(state.aggregate_id().as_deref(), Some("a-1"));
}

#[test]
fn projection_is_restored_from_cache_or_replay() {
    let mut state: AggregateState<String, u8> = AggregateState::new("empty".to_string());
    assert!(state.needs_replay());
    state.restore_cached(None);
    assert!(state.needs_replay());
    // Replaying two stored events, the second of which the handler ignores.
    state.replay_event(0, Some("one".to_string()));
    state.replay_event(1, None);
    assert_eq!(state.projection(), "one");
    assert_eq!(state.seq(), 1);
    assert!(state.is_restored());

    let mut cached: AggregateState<String, u8> = AggregateState::new("empty".to_string());
    cached.restore_cached(Some((4, "four".to_string())));
    assert!(!cached.needs_replay());
    assert_eq!(cached.projection(), "four");
    assert_eq!(cached.seq(), 4);
}

#[test]
fn new_events_are_numbered_after_the_last_stored_one() {
    let mut state: AggregateState<u32, u8> = AggregateState::new(0);
    state.restore_cached(Some((4, 40)));
    state.emit("A", 1);
    state.emit("B", 2);
    state.emit("C", 3);
    let last = state.seq();
    let mut next = last + 1;
    next = state.apply_new_event(next, Some(41));
    next = state.apply_new_event(next, Some(42));
    next = state.apply_new_event(next, Some(43));
    assert_eq!(state.seq(), 7);
    assert_eq!(next, 8);
    assert_eq!(*state.projection(), 43);
    assert!(new_events_applied(last, next));
    assert_eq!(state.events().len(), 3);
}

#[test]
fn ignored_new_event_does_not_advance_the_projection() {
    let mut state: AggregateState<u32, u8> = AggregateState::new(0);
    let last = state.seq();
    let mut next = last + 1;
    next = state.apply_new_event(next, Some(1));
    next = state.apply_new_event(next, None);
    next = state.apply_new_event(next, Some(3));
    // Two of three events applied: the projection stands at 1, not at 2.
    assert_eq!(state.seq(), 1);
    assert_eq!(next, 2);
    let mut none: AggregateState<u32, u8> = AggregateState::new(0);
    let n = none.apply_new_event(0, None);
    assert!(!new_events_applied(-1, n));
}

#[test]
fn store_position_follows_last_stored_event() {
    assert!(matches!(store_position(0, None, -1), Ok(None)));
    match store_position(2, Some("a".to_string()), 4) {
        Ok(Some((id, next))) => {
            assert_eq!(id, "a");
            assert_eq!(next, 5);
        },
        _ => panic!("expected a position"),
    }
    assert!(matches!(store_position(1, None, 4), Err(CommandError::MissingAggregateId)));
    assert!(matches!(store_position(0, Some("a".to_string()), i64::MAX), Ok(None)));
    assert!(matches!(store_position(1, None, i64::MAX), Err(CommandError::MissingAggregateId)));
}

#[test]
fn command_payload_is_required() {
    let c = command(Some(serialize_command("GreetCommand", vec![7, 8])));
    assert_eq!(command_payload_data(&c).unwrap(), vec![7, 8]);
    match command_payload_data(&command(None)) {
        Err(CommandError::NoPayloadData(name)) => assert_eq!(name, "GreetCommand"),
        _ => panic!("expected an error"),
    }
}

#[test]
fn handled_command_reports_response_only() {
    let r = handled_command(Some(serialize_command("R", vec![])));
    assert!(r.events.is_empty());
    assert_eq!(r.response.unwrap().payload_type, "R");
}

#[test]
fn commands_are_routed_to_their_aggregates() {
    let mut registry = empty_aggregate_registry::<u32>();
    registry.insert("Greeting".to_string(), vec!["GreetCommand".to_string(), "RecordCommand".to_string()], 1);
    registry.insert("Account".to_string(), vec!["OpenCommand".to_string()], 2);
    assert_eq!(registry.get("Account"), Some(&2));
    assert_eq!(registry.get("Missing"), None);
    let mut commands = vec!["Existing".to_string()];
    let mut routes = TextMap::new();
    routes.insert("Other".to_string(), "Elsewhere".to_string());
    registry.register_commands(&mut commands, &mut routes);
    assert_eq!(
        commands,
        vec!["Existing", "GreetCommand", "RecordCommand", "OpenCommand"]
            .into_iter()
            .map(String::from)
            .collect::<Vec<_>>()
    );
    assert_eq!(routes.get("GreetCommand"), Some(&"Greeting".to_string()));
    assert_eq!(routes.get("RecordCommand"), Some(&"Greeting".to_string()));
    assert_eq!(routes.get("OpenCommand"), Some(&"Account".to_string()));
    assert_eq!(routes.get("Other"), Some(&"Elsewhere".to_string()));
}

#[test]
fn registering_an_aggregate_again_replaces_it() {
    let mut registry = empty_aggregate_registry::<u32>();
    registry.insert("A".to_string(), vec!["X".to_string()], 1);
    registry.insert("A".to_string(), vec!["Y".to_string()], 2);
    assert_eq!(registry.get("A"), Some(&2));
    let mut commands = vec![];
    let mut routes = TextMap::new();
    registry.register_commands(&mut commands, &mut routes);
    assert_eq!(commands, vec!["Y".to_string()]);
}

#[test]
fn replay_needs_a_sourcing_handler_for_each_payload() {
    let mut state: AggregateState<String, u8> = AggregateState::new("empty".to_string());
    assert!(state.replay_step(0, Some("Opened"), true, Some("open".to_string())).is_ok());
    assert!(state.replay_step(1, None, false, None).is_ok());
    assert_eq!(state.seq(), 1);
    assert_eq!(state.projection(), "open");
    match state.replay_step(2, Some("Unknown"), false, None) {
        Err(CommandError::MissingSourcingHandler(t)) => assert_eq!(t, "Unknown"),
        other => panic!("unexpected {:?}", other),
    }
    assert_eq!(state.seq(), 1);
    assert_eq!(state.projection(), "open");
}

#[test]
fn new_events_need_a_sourcing_handler() {
    let mut state: AggregateState<u32, u8> = AggregateState::new(0);
    state.restore_cached(Some((-1, 0)));
    assert_eq!(state.new_event_step(0, "A", true, Some(1)).unwrap(), 1);
    assert_eq!(state.new_event_step(1, "B", true, None).unwrap(), 1);
    match state.new_event_step(1, "C", false, None) {
        Err(CommandError::MissingSourcingHandler(t)) => assert_eq!(t, "C"),
        other => panic!("unexpected {:?}", other),
    }
    assert_eq!(state.seq(), 0);
    assert_eq!(*state.projection(), 1);
}
