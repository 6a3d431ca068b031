use dendrite::event_processor::{event_step, events_request, initial_tracking_token};
use dendrite::query_submit::{collect_query_response, query_request};
use dendrite::command_submit::serialize_command;
use dendrite::messages::{Event, EventWithToken, QueryResponse, SerializedObject};
use dendrite::text_map::TextMap;

fn event(payload: Option<SerializedObject>) -> Event {
    Event {
        message_identifier: "ev-1".to_string(),
        aggregate_identifier: "a".to_string(),
        aggregate_sequence_number: 0,
        aggregate_type: "A".to_string(),
        timestamp: 0,
        payload,
        meta_data: TextMap::new(),
        snapshot: false,
    }
}

fn response(payload: Option<SerializedObject>) -> QueryResponse {
    QueryResponse {
        message_identifier: "r".to_string(),
        error_code: String::new(),
        error_message: None,
        payload,
        meta_data: TextMap::new(),
        processing_instructions: vec![],
        request_identifier: "q".to_string(),
    }
}

#[test]
fn processing_resumes_after_the_last_token() {
    assert_eq!(initial_tracking_token(Some(41)), 42);
    assert_eq!(initial_tracking_token(Some(-1)), 0);
    assert_eq!(initial_tracking_token(None), 0);
}

#[test]
fn events_request_names_the_processor() {
    let r = events_request(42, 6, "client", "component");
    assert_eq!(r.tracking_token, 42);
    assert_eq!(r.number_of_permits, 6);
    assert_eq!(r.client_id, "client");
    assert_eq!(r.component_name, "component");
    assert_eq!(r.processor, "Event Processor");
    assert!(r.blacklist.is_empty());
    assert!(!r.force_read_from_leader);
}

#[test]
fn event_step_takes_token_and_payload() {
    let m = EventWithToken { token: 17, event: Some(event(Some(serialize_command("E", vec![1])))) };
    let s = event_step(m).unwrap();
    assert_eq!(s.token, 17);
    assert_eq!(s.message_identifier, "ev-1");
    assert_eq!(s.payload.unwrap().payload_type, "E");
    let no_payload = event_step(EventWithToken { token: 3, event: Some(event(None)) }).unwrap();
    assert!(no_payload.payload.is_none());
    assert!(event_step(EventWithToken { token: 4, event: None }).is_none());
}

#[test]
fn query_request_carries_the_query() {
    let q = query_request(serialize_command("GetGreetings", vec![1]), "client", "component");
    assert_eq!(q.query, "GetGreetings");
    assert_eq!(q.payload.unwrap().payload_type, "GetGreetings");
    assert_eq!(q.client_id, "client");
    assert_eq!(q.component_name, "component");
    assert_eq!(q.message_identifier.len(), 36);
    assert!(q.response_type.is_none());
    assert_eq!(q.meta_data.len(), 0);
}

#[test]
fn query_results_are_collected_until_a_response_without_payload() {
    let mut results = vec![];
    assert!(collect_query_response(&mut results, Some(response(Some(serialize_command("A", vec![]))))));
    assert!(collect_query_response(&mut results, Some(response(Some(serialize_command("B", vec![]))))));
    assert!(!collect_query_response(&mut results, Some(response(None))));
    assert!(!collect_query_response(&mut results, None));
    assert_eq!(results.len(), 2);
    assert_eq!(results[1].payload_type, "B");
}
