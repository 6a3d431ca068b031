//! Building a query model from the event stream.
//!
//! An event processor opens a stream of events at the position after the
//! last one its query model has processed, hands each event to the handler
//! registered for its payload type, records the event's position in the
//! model's token store, and keeps the stream going with flow-control permits.
use crate::messages::{Event, EventWithToken, GetEventsRequest, SerializedObject};
use vstd::prelude::*;

verus! {

/// The name under which an event processor announces itself.
pub const PROCESSOR_NAME: &'static str = "Event Processor";

/// The position from which an event processor reads: the one after the last
/// processed event, or the start of the stream (0) when the token store holds
/// no position (or cannot be read).
pub fn initial_tracking_token(retrieved: Option<i64>) -> (r: i64)
    requires
        retrieved != Some(i64::MAX),
    ensures
        r == match retrieved {
            Some(t) => t + 1,
            None => 0,
        },
{
    match retrieved {
        Some(t) => t + 1,
        None => 0,
    }
}

/// The request that opens (or extends) the event stream of a client at the
/// given position with the given number of permits.
pub fn events_request(tracking_token: i64, permits: i64, client_id: &str, component_name: &str) -> (r:
    GetEventsRequest)
    ensures
        r.tracking_token == tracking_token,
        r.number_of_permits == permits,
        r.client_id@ == client_id@,
        r.component_name@ == component_name@,
        r.processor@ == PROCESSOR_NAME@,
        r.blacklist@.len() == 0,
        !r.force_read_from_leader,
{
    GetEventsRequest {
        tracking_token,
        number_of_permits: permits,
        client_id: client_id.to_owned(),
        component_name: component_name.to_owned(),
        processor: PROCESSOR_NAME.to_owned(),
        blacklist: Vec::new(),
        force_read_from_leader: false,
    }
}

/// What an event processor does with one message of the event stream: hand
/// the payload (if any) to the handler registered for its type, store the
/// token, and report the event as processed.
#[derive(Debug)]
pub struct EventStep {
    pub token: i64,
    pub message_identifier: String,
    pub payload: Option<SerializedObject>,
}

/// The step for a message of the event stream; a message without an event
/// is passed over.
pub fn event_step(message: EventWithToken) -> (r: Option<EventStep>)
    ensures
        match message.event {
            Some(e) => r matches Some(s) && s.token == message.token && s.message_identifier
                == e.message_identifier && s.payload == e.payload,
            None => r is None,
        },
{
    match message.event {
        Some(Event { message_identifier, payload, .. }) => Some(
            EventStep { token: message.token, message_identifier, payload },
        ),
        None => None,
    }
}

} // verus!
