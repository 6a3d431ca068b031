//! Handling commands for aggregates.
//!
//! A command worker subscribes to the commands of its aggregates, hands each
//! incoming command to the handler of its aggregate, numbers and stores the
//! events that the handler emitted, and answers AxonServer with the handler's
//! response or with the error.  This module holds the decisions and the
//! messages of that process; sending and receiving is left to the caller.
use crate::clock::now_millis;
use crate::command_submit::CORRELATION_ID_KEY;
use crate::ids::new_message_identifier;
use crate::messages::{
    serialized_object, text_to_meta_data_value, Command, CommandProviderOutbound,
    CommandProviderOutboundRequest, CommandResponse, CommandSubscription, DataView, ErrorMessage,
    Event, FlowControl, MetaData, MetaDataValue, SerializedObject, SerializedObjectView,
};
use crate::text_map::TextMap;
use vstd::prelude::*;

verus! {

/// The metadata key of the name of the command that caused an event.
pub const COMMAND_NAME_KEY: &'static str = "dendrite::command_name";

/// The metadata key of the identifier of the command that caused an event.
pub const COMMAND_ID_KEY: &'static str = "dendrite::command_id";

/// The error code of a failed command.
pub const ERROR_CODE: &'static str = "ERROR";

/// The load factor with which a command worker subscribes to a command.
pub const LOAD_FACTOR: i32 = 100;

/// The correlation identifier that metadata carries: the text stored under
/// the correlation key, if there is text there.
pub open spec fn spec_correlation_id(m: Map<Seq<char>, MetaDataValue>) -> Option<Seq<char>> {
    if m.contains_key(CORRELATION_ID_KEY@) {
        match m[CORRELATION_ID_KEY@]@ {
            Some(DataView::TextValue(t)) => Some(t),
            _ => None,
        }
    } else {
        None
    }
}

/// Storing a text under the correlation key makes it the correlation identifier.
pub proof fn lemma_correlation_id_reads_back(
    m: Map<Seq<char>, MetaDataValue>,
    v: MetaDataValue,
    x: Seq<char>,
)
    requires
        v.is_text(x),
    ensures
        spec_correlation_id(m.insert(CORRELATION_ID_KEY@, v)) == Some(x),
{
}

/// The three metadata keys that events carry are distinct.
proof fn lemma_metadata_keys_distinct()
    ensures
        CORRELATION_ID_KEY@ != COMMAND_NAME_KEY@,
        CORRELATION_ID_KEY@ != COMMAND_ID_KEY@,
        COMMAND_NAME_KEY@ != COMMAND_ID_KEY@,
{
    crate::command_submit::lemma_correlation_id_key_text();
    reveal_strlit("dendrite::correlation_id");
    reveal_strlit("dendrite::command_name");
    reveal_strlit("dendrite::command_id");
    assert("dendrite::correlation_id"@.len() == 24);
    assert(COMMAND_NAME_KEY@.len() == 22);
    assert(COMMAND_ID_KEY@.len() == 20);
}

/// The correlation identifier of a command, if its metadata holds one.
pub fn correlation_id(command: &Command) -> (r: Option<&str>)
    requires
        command.meta_data.wf(),
    ensures
        match r {
            Some(s) => spec_correlation_id(command.meta_data@) == Some(s@),
            None => spec_correlation_id(command.meta_data@) is None,
        },
{
    match command.meta_data.get(CORRELATION_ID_KEY) {
        Some(MetaDataValue { data: Some(crate::messages::Data::TextValue(c)) }) => Some(c.as_str()),
        _ => None,
    }
}

/// The metadata that an event receives from the command that caused it.
pub open spec fn event_meta_data(
    command_name: Seq<char>,
    command_id: Seq<char>,
    correlation_id: Option<Seq<char>>,
) -> Map<Seq<char>, Option<DataView>> {
    let m = Map::<Seq<char>, Option<DataView>>::empty().insert(
        COMMAND_NAME_KEY@,
        Some(DataView::TextValue(command_name)),
    ).insert(COMMAND_ID_KEY@, Some(DataView::TextValue(command_id)));
    match correlation_id {
        Some(c) => m.insert(CORRELATION_ID_KEY@, Some(DataView::TextValue(c))),
        None => m,
    }
}

pub open spec fn opt_view(o: Option<&str>) -> Option<Seq<char>> {
    match o {
        Some(s) => Some(s@),
        None => None,
    }
}

/// The event message for an emitted event (its type and its encoded form):
/// a fresh message identifier, the given timestamp and sequence number, the
/// aggregate's identifier and type, the event as payload (revision empty),
/// and metadata naming the command that caused it and its correlation
/// identifier, if any.  It is not a snapshot.
pub fn encode_event_with_timestamp(
    e: &(String, Vec<u8>),
    aggregate_name: &str,
    aggregate_id: &str,
    command_name: &str,
    command_id: &str,
    correlation_id: Option<&str>,
    timestamp: i64,
    next_seq: i64,
) -> (r: Event)
    ensures
        crate::ids::is_v4_uuid_text(r.message_identifier@),
        r.timestamp == timestamp,
        r.aggregate_identifier@ == aggregate_id@,
        r.aggregate_sequence_number == next_seq,
        r.aggregate_type@ == aggregate_name@,
        r.payload matches Some(p) && p@ == (SerializedObjectView {
            payload_type: e.0@,
            revision: Seq::<char>::empty(),
            data: e.1@,
        }),
        r.meta_data.wf(),
        crate::messages::meta_data_view(r.meta_data@) == event_meta_data(
            command_name@,
            command_id@,
            opt_view(correlation_id),
        ),
        spec_correlation_id(r.meta_data@) == opt_view(correlation_id),
        !r.snapshot,
{
    let data = e.1.clone();
    assert(data@ =~= e.1@);
    let payload = serialized_object(e.0.as_str(), "", data);
    proof {
        reveal_strlit("");
        assert(""@ =~= Seq::<char>::empty());
    }
    let message_identifier = new_message_identifier();
    let mut meta_data: MetaData = TextMap::new();
    meta_data.insert(COMMAND_NAME_KEY.to_owned(), text_to_meta_data_value(command_name));
    meta_data.insert(COMMAND_ID_KEY.to_owned(), text_to_meta_data_value(command_id));
    let ghost before_correlation = meta_data@;
    match correlation_id {
        Some(c) => {
            meta_data.insert(CORRELATION_ID_KEY.to_owned(), text_to_meta_data_value(c));
        },
        None => {},
    }
    proof {
        let expected = event_meta_data(command_name@, command_id@, opt_view(correlation_id));
        assert(crate::messages::meta_data_view(meta_data@) =~= expected);
        lemma_metadata_keys_distinct();
        if correlation_id is None {
            if meta_data@.contains_key(CORRELATION_ID_KEY@) {
                assert(expected.contains_key(CORRELATION_ID_KEY@));
                assert(meta_data@[CORRELATION_ID_KEY@]@ == expected[CORRELATION_ID_KEY@]);
            }
        }
    }
    Event {
        message_identifier,
        timestamp,
        aggregate_identifier: aggregate_id.to_owned(),
        aggregate_sequence_number: next_seq,
        aggregate_type: aggregate_name.to_owned(),
        payload: Some(payload),
        meta_data,
        snapshot: false,
    }
}

/// Why a command could not be handled.
#[derive(Debug)]
pub enum CommandError {
    /// The command carries no payload.
    NoPayloadData(String),
    /// Events were emitted but no aggregate was addressed.
    MissingAggregateId,
    /// No sourcing handler is registered for the payload type of an event.
    MissingSourcingHandler(String),
    /// The handler addressed two different aggregates: the one asked for and
    /// the one addressed before.
    InconsistentAggregateId(String, String),
    /// The clock stands before the Unix epoch.
    ClockBeforeEpoch,
}

/// The event message for an emitted event, stamped with the current time in
/// milliseconds since the Unix epoch; fails when the clock stands before it.
pub fn encode_event(
    e: &(String, Vec<u8>),
    aggregate_name: &str,
    aggregate_id: &str,
    command_name: &str,
    command_id: &str,
    correlation_id: Option<&str>,
    next_seq: i64,
) -> (r: Result<Event, CommandError>)
    ensures
        r matches Ok(ev) ==> {
            &&& ev.aggregate_identifier@ == aggregate_id@
            &&& ev.aggregate_sequence_number == next_seq
            &&& ev.aggregate_type@ == aggregate_name@
            &&& ev.payload matches Some(p) && p@ == (SerializedObjectView {
                payload_type: e.0@,
                revision: Seq::<char>::empty(),
                data: e.1@,
            })
            &&& ev.meta_data.wf()
            &&& crate::messages::meta_data_view(ev.meta_data@) == event_meta_data(
                command_name@,
                command_id@,
                opt_view(correlation_id),
            )
            &&& !ev.snapshot
        },
        r matches Err(err) ==> err is ClockBeforeEpoch,
{
    match now_millis() {
        Some(millis) => {
            let timestamp = millis as i64;
            Ok(
                encode_event_with_timestamp(
                    e,
                    aggregate_name,
                    aggregate_id,
                    command_name,
                    command_id,
                    correlation_id,
                    timestamp,
                    next_seq,
                ),
            )
        },
        None => Err(CommandError::ClockBeforeEpoch),
    }
}

/// The event messages for the events that a command emitted, all stamped with
/// one timestamp and numbered consecutively from `next_seq`, in order.
pub fn encode_events(
    events: &Vec<(String, Vec<u8>)>,
    aggregate_name: &str,
    aggregate_id: &str,
    command_name: &str,
    command_id: &str,
    correlation_id: Option<&str>,
    timestamp: i64,
    next_seq: i64,
) -> (r: Vec<Event>)
    requires
        next_seq + events@.len() <= i64::MAX,
    ensures
        r@.len() == events@.len(),
        forall|i: int|
            0 <= i < r@.len() ==> {
                &&& (#[trigger] r@[i]).aggregate_sequence_number == next_seq + i
                &&& r@[i].timestamp == timestamp
                &&& r@[i].aggregate_identifier@ == aggregate_id@
                &&& r@[i].aggregate_type@ == aggregate_name@
                &&& r@[i].payload matches Some(p) && p@ == (SerializedObjectView {
                    payload_type: events@[i].0@,
                    revision: Seq::<char>::empty(),
                    data: events@[i].1@,
                })
                &&& r@[i].meta_data.wf()
                &&& crate::messages::meta_data_view(r@[i].meta_data@) == event_meta_data(
                    command_name@,
                    command_id@,
                    opt_view(correlation_id),
                )
                &&& !r@[i].snapshot
            },
{
    let mut r: Vec<Event> = Vec::new();
    let mut i: usize = 0;
    while i < events.len()
        invariant
            i <= events@.len(),
            next_seq + events@.len() <= i64::MAX,
            r@.len() == i,
            forall|j: int|
                0 <= j < i ==> {
                    &&& (#[trigger] r@[j]).aggregate_sequence_number == next_seq + j
                    &&& r@[j].timestamp == timestamp
                    &&& r@[j].aggregate_identifier@ == aggregate_id@
                    &&& r@[j].aggregate_type@ == aggregate_name@
                    &&& r@[j].payload matches Some(p) && p@ == (SerializedObjectView {
                        payload_type: events@[j].0@,
                        revision: Seq::<char>::empty(),
                        data: events@[j].1@,
                    })
                    &&& r@[j].meta_data.wf()
                    &&& crate::messages::meta_data_view(r@[j].meta_data@) == event_meta_data(
                        command_name@,
                        command_id@,
                        opt_view(correlation_id),
                    )
                    &&& !r@[j].snapshot
                },
        decreases events@.len() - i,
    {
        let seq = (next_seq as i128 + i as i128) as i64;
        let ev = encode_event_with_timestamp(
            &events[i],
            aggregate_name,
            aggregate_id,
            command_name,
            command_id,
            correlation_id,
            timestamp,
            seq,
        );
        r.push(ev);
        i = i + 1;
    }
    r
}

/// How a command is referred to in reports: its message identifier, followed
/// by its correlation identifier in parentheses if it has one.
pub fn command_context(message_id: &str, correlation_id: Option<&str>) -> (r: String)
    ensures
        r@ == match correlation_id {
            Some(c) => message_id@ + "("@ + c@ + ")"@,
            None => message_id@,
        },
{
    let mut r = message_id.to_owned();
    match correlation_id {
        Some(c) => {
            r.append("(");
            r.append(c);
            r.append(")");
        },
        None => {},
    }
    r
}

/// The instruction that subscribes a client to a type of command, with a
/// fresh message identifier and instruction identifier and load factor 100.
pub fn subscription_instruction(command_name: String, client_id: &str, component_name: &str) -> (r:
    CommandProviderOutbound)
    ensures
        crate::ids::is_v4_uuid_text(r.instruction_id@),
        r.request matches Some(CommandProviderOutboundRequest::Subscribe(s)) && {
            &&& s.command == command_name
            &&& s.client_id@ == client_id@
            &&& s.component_name@ == component_name@
            &&& s.load_factor == LOAD_FACTOR
            &&& crate::ids::is_v4_uuid_text(s.message_id@)
        },
{
    let subscription = CommandSubscription {
        message_id: new_message_identifier(),
        command: command_name,
        client_id: client_id.to_owned(),
        component_name: component_name.to_owned(),
        load_factor: LOAD_FACTOR,
    };
    CommandProviderOutbound {
        instruction_id: new_message_identifier(),
        request: Some(CommandProviderOutboundRequest::Subscribe(subscription)),
    }
}

/// The instruction that grants AxonServer the given number of permits.
pub fn flow_control_instruction(client_id: &str, permits: i64) -> (r: CommandProviderOutbound)
    ensures
        crate::ids::is_v4_uuid_text(r.instruction_id@),
        r.request matches Some(CommandProviderOutboundRequest::FlowControl(f)) && f.client_id@
            == client_id@ && f.permits == permits,
{
    CommandProviderOutbound {
        instruction_id: new_message_identifier(),
        request: Some(
            CommandProviderOutboundRequest::FlowControl(
                FlowControl { client_id: client_id.to_owned(), permits },
            ),
        ),
    }
}

/// What a command handler produced: the events to emit (already serialized)
/// and the response to the caller.
#[derive(Debug)]
pub struct EmitEventsAndResponse {
    pub events: Vec<SerializedObject>,
    pub response: Option<SerializedObject>,
}

/// The outcome of handling one command: the identifier of the command, and
/// what its handler produced or why it failed.
#[derive(Debug)]
pub struct AxonCommandResult {
    pub message_identifier: String,
    pub result: Result<Option<EmitEventsAndResponse>, String>,
}

/// The response payload of a successfully handled command, if there is one.
pub open spec fn response_payload(r: Option<EmitEventsAndResponse>) -> Option<SerializedObject> {
    match r {
        Some(e) => e.response,
        None => None,
    }
}

/// `r` answers AxonServer for the handled command `result` as
/// `command_response` does (apart from its fresh message identifier).
pub open spec fn is_command_response(r: CommandResponse, result: AxonCommandResult) -> bool {
    &&& crate::ids::is_v4_uuid_text(r.message_identifier@)
    &&& r.request_identifier == result.message_identifier
    &&& r.meta_data.wf()
    &&& r.meta_data@ == Map::<Seq<char>, MetaDataValue>::empty()
    &&& r.processing_instructions@.len() == 0
    &&& match result.result {
        Ok(ok) => {
            &&& r.payload == response_payload(ok)
            &&& r.error_code@ == Seq::<char>::empty()
            &&& r.error_message is None
        },
        Err(text) => {
            &&& r.payload is None
            &&& r.error_code@ == ERROR_CODE@
            &&& r.error_message matches Some(m) && {
                &&& m.message == text
                &&& m.location@ == Seq::<char>::empty()
                &&& m.details@.len() == 0
                &&& m.error_code@ == ERROR_CODE@
            }
        },
    }
}

/// The answer to AxonServer for a handled command: a fresh message
/// identifier, the command's identifier as request identifier, and either the
/// handler's response payload or, for a failure, error code "ERROR" with an
/// error message holding the failure's text.
pub fn command_response(result: AxonCommandResult) -> (r: CommandResponse)
    ensures
        is_command_response(r, result),
{
    proof {
        reveal_strlit("");
        assert(""@ =~= Seq::<char>::empty());
    }
    let mut response = CommandResponse {
        message_identifier: new_message_identifier(),
        request_identifier: result.message_identifier,
        payload: None,
        error_code: "".to_owned(),
        error_message: None,
        meta_data: TextMap::new(),
        processing_instructions: Vec::new(),
    };
    match result.result {
        Ok(ok) => {
            response.payload = match ok {
                Some(e) => e.response,
                None => None,
            };
        },
        Err(text) => {
            response.error_code = ERROR_CODE.to_owned();
            response.error_message = Some(
                ErrorMessage {
                    message: text,
                    location: "".to_owned(),
                    details: Vec::new(),
                    error_code: ERROR_CODE.to_owned(),
                },
            );
        },
    }
    response
}

/// The instruction that carries the answer for a handled command.
pub fn command_response_instruction(result: AxonCommandResult) -> (r: CommandProviderOutbound)
    ensures
        crate::ids::is_v4_uuid_text(r.instruction_id@),
        r.request matches Some(CommandProviderOutboundRequest::CommandResponse(c))
            && is_command_response(c, result),
{
    let response = command_response(result);
    CommandProviderOutbound {
        instruction_id: new_message_identifier(),
        request: Some(CommandProviderOutboundRequest::CommandResponse(response)),
    }
}

} // verus!
