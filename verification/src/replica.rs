//! A replica of the event stream in Elasticsearch.
//!
//! Every event with a payload becomes a document that records where the event
//! came from, its metadata and, when a transcoder is registered for its
//! payload type, the payload decoded to JSON.
use crate::messages::{Event, MetaData};
use crate::text_map::TextMap;
use vstd::prelude::*;

verus! {

/// The cluster status that Elasticsearch reports while it is not ready.
pub const RED: &'static str = "red";

/// Whether Elasticsearch is ready, given the status it reports: it is when
/// it reports a status other than "red".
pub fn cluster_status_ready(status: Option<&str>) -> (r: bool)
    ensures
        r == match status {
            Some(s) => s@ != RED@,
            None => false,
        },
{
    match status {
        Some(s) => {
            let a = s.to_owned();
            let b = RED.to_owned();
            !(a == b)
        },
        None => false,
    }
}

/// The fields of the document that replicates an event.
#[derive(Debug)]
pub struct ReplicaRecord {
    /// The payload type of the event.
    pub payload_type: String,
    pub event_id: String,
    pub aggregate_id: String,
    pub aggregate_sequence_number: i64,
    pub aggregate_type: String,
    pub timestamp: i64,
    pub meta_data: MetaData,
    /// Present, and true, only for a snapshot.
    pub is_snapshot: Option<bool>,
    /// The encoded payload, for a transcoder to decode.
    pub data: Vec<u8>,
}

/// The document that replicates an event; an event without payload is not
/// replicated.
pub fn replica_record(event: Event) -> (r: Option<ReplicaRecord>)
    ensures
        match event.payload {
            None => r is None,
            Some(p) => r matches Some(rec) && {
                &&& rec.payload_type == p.payload_type
                &&& rec.data == p.data
                &&& rec.event_id == event.message_identifier
                &&& rec.aggregate_id == event.aggregate_identifier
                &&& rec.aggregate_sequence_number == event.aggregate_sequence_number
                &&& rec.aggregate_type == event.aggregate_type
                &&& rec.timestamp == event.timestamp
                &&& rec.meta_data == event.meta_data
                &&& rec.is_snapshot == if event.snapshot {
                    Some(true)
                } else {
                    None::<bool>
                }
            },
        },
{
    match event.payload {
        None => None,
        Some(p) => Some(
            ReplicaRecord {
                payload_type: p.payload_type,
                event_id: event.message_identifier,
                aggregate_id: event.aggregate_identifier,
                aggregate_sequence_number: event.aggregate_sequence_number,
                aggregate_type: event.aggregate_type,
                timestamp: event.timestamp,
                meta_data: event.meta_data,
                is_snapshot: if event.snapshot {
                    Some(true)
                } else {
                    None
                },
                data: p.data,
            },
        ),
    }
}

/// Transcoders from encoded payloads to JSON, by payload type.
pub struct Transcoders<T>(TextMap<T>);

impl<T> Transcoders<T> {
    pub closed spec fn wf(self) -> bool {
        self.0.wf()
    }

    /// The transcoders by payload type.
    pub closed spec fn spec_map(self) -> Map<Seq<char>, T> {
        self.0@
    }

    /// No transcoders.
    pub fn new() -> (r: Transcoders<T>)
        ensures
            r.wf(),
            r.spec_map() == Map::<Seq<char>, T>::empty(),
    {
        Transcoders(TextMap::new())
    }

    /// Registers the transcoder for a payload type, replacing the one
    /// registered for it before.
    pub fn insert_transcoder(self, message_type: &str, transcoder: T) -> (r: Transcoders<T>)
        requires
            self.wf(),
        ensures
            r.wf(),
            r.spec_map() == self.spec_map().insert(message_type@, transcoder),
    {
        let mut map = self.0;
        map.insert(message_type.to_owned(), transcoder);
        Transcoders(map)
    }

    /// The transcoder for a payload type, if one is registered.
    pub fn get(&self, message_type: &str) -> (r: Option<&T>)
        requires
            self.wf(),
        ensures
            match r {
                Some(t) => self.spec_map().contains_key(message_type@) && *t == self.spec_map()[message_type@],
                None => !self.spec_map().contains_key(message_type@),
            },
    {
        self.0.get(message_type)
    }
}

} // verus!
