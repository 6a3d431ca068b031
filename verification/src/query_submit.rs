//! Sending queries to AxonServer and collecting the answers.
use crate::ids::new_message_identifier;
use crate::messages::{QueryRequest, QueryResponse, SerializedObject};
use crate::text_map::TextMap;
use vstd::prelude::*;

verus! {

/// The query message for a serialized query sent by the given client: a fresh
/// message identifier, the query's type as query name, the query as payload,
/// no response type, no metadata, no processing instructions, timestamp 0.
pub fn query_request(message: SerializedObject, client_id: &str, component_name: &str) -> (r:
    QueryRequest)
    ensures
        crate::ids::is_v4_uuid_text(r.message_identifier@),
        r.query@ == message.payload_type@,
        r.payload == Some(message),
        r.response_type is None,
        r.meta_data.wf(),
        r.meta_data@ == Map::<Seq<char>, crate::messages::MetaDataValue>::empty(),
        r.processing_instructions@.len() == 0,
        r.client_id@ == client_id@,
        r.component_name@ == component_name@,
        r.timestamp == 0,
{
    let query = message.payload_type.clone();
    QueryRequest {
        message_identifier: new_message_identifier(),
        query,
        timestamp: 0,
        payload: Some(message),
        meta_data: TextMap::new(),
        response_type: None,
        processing_instructions: Vec::new(),
        client_id: client_id.to_owned(),
        component_name: component_name.to_owned(),
    }
}

/// Takes the next message of a query's response stream: a response with a
/// payload adds the payload to the results, and the collection goes on; the
/// end of the stream, or a response without payload, ends it.
pub fn collect_query_response(results: &mut Vec<SerializedObject>, response: Option<QueryResponse>) -> (more:
    bool)
    ensures
        match response {
            Some(q) => match q.payload {
                Some(p) => more && final(results)@ == old(results)@.push(p),
                None => !more && final(results)@ == old(results)@,
            },
            None => !more && final(results)@ == old(results)@,
        },
{
    match response {
        Some(q) => match q.payload {
            Some(p) => {
                results.push(p);
                true
            },
            None => false,
        },
        None => false,
    }
}

} // verus!
