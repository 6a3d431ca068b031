use dendrite::command_submit::{
    build_command, serialize_command, submit_outcome, SubmitCommand, SubmitError,
    CORRELATION_ID_KEY,
};
use dendrite::command_worker::correlation_id;
use dendrite::messages::{
    clone_meta_data, text_to_meta_data_value, CommandResponse, Data, ErrorMessage, MetaDataValue,
    SerializedObject,
};
use dendrite::text_map::TextMap;

fn text_of(v: Option<&MetaDataValue>) -> Option<String> {
    match v {
        Some(MetaDataValue { data: Some(Data::TextValue(t)) }) => Some(t.clone()),
        _ => None,
    }
}

#[test]
fn test_submit_command() {
    // The command that is sent.
    let message = SerializedObject {
        payload_type: "unknown".to_string(),
        revision: "1".to_string(),
        data: vec![],
    };
    let meta_data = TextMap::new();
    let command = build_command(message, "test-client", "Test AxonServer handle", meta_data);
    assert_eq!(command.name, "unknown");
    assert_eq!(command.client_id, "test-client");
    assert_eq!(command.component_name, "Test AxonServer handle");
    assert_eq!(command.timestamp, 0);
    // The mock server acknowledges with a payload of type "test-payload".
    let payload = SerializedObject {
        payload_type: "test-payload".to_string(),
        revision: String::new(),
        data: vec![],
    };
    let response = CommandResponse {
        message_identifier: command.message_identifier.clone(),
        error_code: String::new(),
        error_message: None,
        payload: Some(payload),
        meta_data: TextMap::new(),
        processing_instructions: vec![],
        request_identifier: String::new(),
    };
    let actual_payload = submit_outcome(response).unwrap();
    let serialized_object = actual_payload.expect("Missing serialized object");
    assert_eq!(&serialized_object.payload_type, "test-payload");
}

#[test]
fn submit_outcome_reports_error_message() {
    let response = CommandResponse {
        message_identifier: "m".to_string(),
        error_code: "ERROR".to_string(),
        error_message: Some(ErrorMessage {
            message: "rejected".to_string(),
            location: String::new(),
            details: vec![],
            error_code: "ERROR".to_string(),
        }),
        payload: None,
        meta_data: TextMap::new(),
        processing_instructions: vec![],
        request_identifier: "r".to_string(),
    };
    assert_eq!(submit_outcome(response).unwrap_err(), "rejected");
}

#[test]
fn submit_outcome_without_payload_is_none() {
    let response = CommandResponse {
        message_identifier: "m".to_string(),
        error_code: String::new(),
        error_message: None,
        payload: None,
        meta_data: TextMap::new(),
        processing_instructions: vec![],
        request_identifier: "r".to_string(),
    };
    assert!(submit_outcome(response).unwrap().is_none());
}

#[test]
fn build_command_has_fresh_identifier() {
    let a = build_command(serialize_command("T", vec![1]), "c", "n", TextMap::new());
    let b = build_command(serialize_command("T", vec![1]), "c", "n", TextMap::new());
    assert_eq!(a.message_identifier.len(), 36);
    for (i, c) in a.message_identifier.chars().enumerate() {
        if i == 8 || i == 13 || i == 18 || i == 23 {
            assert_eq!(c, '-');
        } else {
            assert!(c.is_ascii_digit() || ('a'..='f').contains(&c));
        }
    }
    assert_eq!(a.message_identifier.chars().nth(14), Some('4'));
    assert_ne!(a.message_identifier, b.message_identifier);
    assert_eq!(a.payload.unwrap().revision, "1");
    assert!(a.processing_instructions.is_empty());
}

#[test]
fn submit_command_builder_collects_type_command_and_metadata() {
    let mut submit = SubmitCommand::new("GreetCommand", vec![10, 3, 72, 105, 33]);
    submit
        .text_annotation("user", "alice")
        .annotation("count", &MetaDataValue { data: Some(Data::NumberValue(7)) });
    let object = submit.serialized_command().unwrap();
    assert_eq!(object.payload_type, "GreetCommand");
    assert_eq!(object.revision, "1");
    assert_eq!(object.data, vec![10, 3, 72, 105, 33]);
    let meta = submit.meta_data();
    assert_eq!(meta.len(), 2);
    assert_eq!(text_of(meta.get("user")), Some("alice".to_string()));
    match meta.get("count") {
        Some(MetaDataValue { data: Some(Data::NumberValue(7)) }) => {},
        other => panic!("unexpected {:?}", other),
    }
}

#[test]
fn submit_command_replaces_command() {
    let mut submit = SubmitCommand::new("A", vec![1]);
    submit.text_annotation("k", "v").command("B", vec![2, 3]);
    let object = submit.serialized_command().unwrap();
    assert_eq!(object.payload_type, "B");
    assert_eq!(object.data, vec![2, 3]);
    assert_eq!(submit.meta_data().len(), 1);
}

#[test]
fn empty_command_type_is_rejected_first() {
    let submit = SubmitCommand::default();
    assert_eq!(submit.serialized_command().unwrap_err(), SubmitError::EmptyCommandType);
    let submit = SubmitCommand::new("", vec![1]);
    assert_eq!(submit.serialized_command().unwrap_err(), SubmitError::EmptyCommandType);
}

#[test]
fn default_command_cannot_be_sent() {
    let mut submit = SubmitCommand::default();
    submit.text_annotation("k", "v");
    assert_eq!(submit.serialized_command().unwrap_err(), SubmitError::EmptyCommandType);
    let mut with_type = SubmitCommand::default();
    with_type.command("T", vec![]);
    assert!(with_type.serialized_command().is_ok());
}

#[test]
fn correlation_id_travels_with_the_command() {
    let mut submit = SubmitCommand::new("GreetCommand", vec![1, 2]);
    submit.correlation_id("corr-42");
    let meta = clone_meta_data(submit.meta_data());
    assert_eq!(text_of(meta.get(CORRELATION_ID_KEY)), Some("corr-42".to_string()));
    let command = build_command(submit.serialized_command().unwrap(), "client", "component", meta);
    assert_eq!(correlation_id(&command), Some("corr-42"));
}

#[test]
fn later_correlation_id_replaces_earlier() {
    let mut submit = SubmitCommand::new("C", vec![]);
    submit.correlation_id("first").correlation_id("second");
    let meta = clone_meta_data(submit.meta_data());
    assert_eq!(meta.len(), 1);
    let command = build_command(submit.serialized_command().unwrap(), "c", "n", meta);
    assert_eq!(correlation_id(&command), Some("second"));
}

#[test]
fn command_without_text_correlation_has_none() {
    let mut meta = TextMap::new();
    meta.insert(
        CORRELATION_ID_KEY.to_string(),
        MetaDataValue { data: Some(Data::BooleanValue(true)) },
    );
    let command = build_command(serialize_command("C", vec![]), "c", "n", meta);
    assert_eq!(correlation_id(&command), None);
    let command = build_command(serialize_command("C", vec![]), "c", "n", TextMap::new());
    assert_eq!(correlation_id(&command), None);
}

#[test]
fn text_meta_data_value_holds_text() {
    assert_eq!(text_of(Some(&text_to_meta_data_value("x"))), Some("x".to_string()));
}
