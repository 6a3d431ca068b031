use dendrite::command_submit::CORRELATION_ID_KEY;
use dendrite::command_worker::{
    command_context, command_response, command_response_instruction, encode_event,
    encode_event_with_timestamp, encode_events, flow_control_instruction, subscription_instruction,
    AxonCommandResult, EmitEventsAndResponse, COMMAND_ID_KEY, COMMAND_NAME_KEY,
};
use dendrite::messages::{
    CommandProviderOutboundRequest, Data, MetaDataValue, SerializedObject,
};

fn text_of(v: Option<&MetaDataValue>) -> Option<String> {
    match v {
        Some(MetaDataValue { data: Some(Data::TextValue(t)) }) => Some(t.clone()),
        _ => None,
    }
}

#[test]
fn event_carries_its_origin() {
    let e = ("GreetedEvent".to_string(), vec![1u8, 2, 3]);
    let ev = encode_event_with_timestamp(&e, "Greeting", "g-1", "GreetCommand", "cmd-9", Some("corr-1"), 1234, 7);
    assert_eq!(ev.message_identifier.len(), 36);
    assert_eq!(ev.timestamp, 1234);
    assert_eq!(ev.aggregate_identifier, "g-1");
    assert_eq!(ev.aggregate_type, "Greeting");
    assert_eq!(ev.aggregate_sequence_number, 7);
    assert!(!ev.snapshot);
    let p = ev.payload.as_ref().unwrap();
    assert_eq!(p.payload_type, "GreetedEvent");
    assert_eq!(p.revision, "");
    assert_eq!(p.data, vec![1, 2, 3]);
    assert_eq!(ev.meta_data.len(), 3);
    assert_eq!(text_of(ev.meta_data.get(COMMAND_NAME_KEY)), Some("GreetCommand".to_string()));
    assert_eq!(text_of(ev.meta_data.get(COMMAND_ID_KEY)), Some("cmd-9".to_string()));
    assert_eq!(text_of(ev.meta_data.get(CORRELATION_ID_KEY)), Some("corr-1".to_string()));
}

#[test]
fn event_without_correlation_has_two_metadata_entries() {
    let e = ("E".to_string(), vec![]);
    let ev = encode_event_with_timestamp(&e, "A", "a", "C", "c", None, 0, 0);
    assert_eq!(ev.meta_data.len(), 2);
    assert!(ev.meta_data.get(CORRELATION_ID_KEY).is_none());
}

#[test]
fn encode_event_stamps_current_time() {
    let e = ("E".to_string(), vec![5]);
    let ev = encode_event(&e, "A", "a", "C", "c", None, 3).unwrap();
    assert!(ev.timestamp > 1_600_000_000_000);
    assert_eq!(ev.aggregate_sequence_number, 3);
}

#[test]
fn stored_events_are_numbered_consecutively() {
    let events = vec![
        ("First".to_string(), vec![1u8]),
        ("Second".to_string(), vec![2u8]),
        ("Third".to_string(), vec![3u8]),
    ];
    let out = encode_events(&events, "Agg", "id-1", "Cmd", "cmd-1", Some("c"), 99, 5);
    assert_eq!(out.len(), 3);
    for (i, ev) in out.iter().enumerate() {
        assert_eq!(ev.aggregate_sequence_number, 5 + i as i64);
        assert_eq!(ev.timestamp, 99);
        assert_eq!(ev.payload.as_ref().unwrap().payload_type, events[i].0);
    }
    assert!(encode_events(&vec![], "A", "a", "C", "c", None, 0, 0).is_empty());
    // Numbering may start anywhere, below zero too.
    let negative = encode_events(&events, "Agg", "id-1", "Cmd", "cmd-1", None, 1, -2);
    let numbers: Vec<i64> = negative.iter().map(|e| e.aggregate_sequence_number).collect();
    assert_eq!(numbers, vec![-2, -1, 0]);
}

#[test]
fn command_context_names_correlation() {
    assert_eq!(command_context("msg-1", Some("corr")), "msg-1(corr)");
    assert_eq!(command_context("msg-1", None), "msg-1");
}

#[test]
fn subscription_and_flow_control_instructions() {
    let s = subscription_instruction("GreetCommand".to_string(), "client", "component");
    assert_eq!(s.instruction_id.len(), 36);
    match s.request {
        Some(CommandProviderOutboundRequest::Subscribe(sub)) => {
            assert_eq!(sub.command, "GreetCommand");
            assert_eq!(sub.client_id, "client");
            assert_eq!(sub.component_name, "component");
            assert_eq!(sub.load_factor, 100);
        },
        other => panic!("unexpected {:?}", other),
    }
    let f = flow_control_instruction("client", 6);
    match f.request {
        Some(CommandProviderOutboundRequest::FlowControl(fc)) => {
            assert_eq!(fc.client_id, "client");
            assert_eq!(fc.permits, 6);
        },
        other => panic!("unexpected {:?}", other),
    }
}

#[test]
fn successful_command_answers_with_response_payload() {
    let response = SerializedObject {
        payload_type: "Ack".to_string(),
        revision: String::new(),
        data: vec![9],
    };
    let result = AxonCommandResult {
        message_identifier: "cmd-1".to_string(),
        result: Ok(Some(EmitEventsAndResponse { events: vec![], response: Some(response) })),
    };
    let r = command_response(result);
    assert_eq!(r.request_identifier, "cmd-1");
    assert_eq!(r.error_code, "");
    assert!(r.error_message.is_none());
    assert_eq!(r.payload.unwrap().payload_type, "Ack");
    assert_eq!(r.message_identifier.len(), 36);
}

#[test]
fn failed_command_answers_with_error() {
    let result = AxonCommandResult {
        message_identifier: "cmd-2".to_string(),
        result: Err("Missing command handler".to_string()),
    };
    let r = command_response(result);
    assert_eq!(r.request_identifier, "cmd-2");
    assert_eq!(r.error_code, "ERROR");
    assert!(r.payload.is_none());
    let m = r.error_message.unwrap();
    assert_eq!(m.message, "Missing command handler");
    assert_eq!(m.error_code, "ERROR");
    assert_eq!(m.location, "");
    assert!(m.details.is_empty());
}

#[test]
fn response_instruction_wraps_response() {
    let result = AxonCommandResult { message_identifier: "c".to_string(), result: Ok(None) };
    let i = command_response_instruction(result);
    match i.request {
        Some(CommandProviderOutboundRequest::CommandResponse(r)) => {
            assert_eq!(r.request_identifier, "c");
            assert!(r.payload.is_none());
        },
        other => panic!("unexpected {:?}", other),
    }
}
