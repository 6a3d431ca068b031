//! The messages exchanged with AxonServer, as plain values.
//!
//! Each type mirrors a message of AxonServer's gRPC protocol.  Maps from text
//! to values are held in a `TextMap`; a floating-point metadata value is held
//! as the bits of its IEEE-754 representation, which this library carries but
//! never computes with.
use crate::text_map::TextMap;
use vstd::prelude::*;

verus! {

/// A serialized object: a type identifier, the revision of its serialized
/// form, and the serialized bytes.
#[derive(Debug)]
pub struct SerializedObject {
    pub payload_type: String,
    pub revision: String,
    pub data: Vec<u8>,
}

/// The value of a serialized object.
pub struct SerializedObjectView {
    pub payload_type: Seq<char>,
    pub revision: Seq<char>,
    pub data: Seq<u8>,
}

impl View for SerializedObject {
    type V = SerializedObjectView;

    open spec fn view(&self) -> SerializedObjectView {
        SerializedObjectView {
            payload_type: self.payload_type@,
            revision: self.revision@,
            data: self.data@,
        }
    }
}

impl Clone for SerializedObject {
    fn clone(&self) -> (r: Self)
        ensures
            r@ == self@,
    {
        let data = self.data.clone();
        assert(data@ =~= self.data@);
        SerializedObject {
            payload_type: self.payload_type.clone(),
            revision: self.revision.clone(),
            data,
        }
    }
}

/// Builds a serialized object of the given type and revision around encoded bytes.
pub fn serialized_object(type_label: &str, revision: &str, data: Vec<u8>) -> (r: SerializedObject)
    ensures
        r.payload_type@ == type_label@,
        r.revision@ == revision@,
        r.data@ == data@,
{
    SerializedObject { payload_type: type_label.to_owned(), revision: revision.to_owned(), data }
}

/// The data of a metadata entry.
#[derive(Debug)]
pub enum Data {
    TextValue(String),
    NumberValue(i64),
    BooleanValue(bool),
    /// The bits of an IEEE-754 double.
    DoubleValue(u64),
    BytesValue(SerializedObject),
}

/// The value of the data of a metadata entry.
pub enum DataView {
    TextValue(Seq<char>),
    NumberValue(i64),
    BooleanValue(bool),
    DoubleValue(u64),
    BytesValue(SerializedObjectView),
}

impl View for Data {
    type V = DataView;

    open spec fn view(&self) -> DataView {
        match self {
            Data::TextValue(t) => DataView::TextValue(t@),
            Data::NumberValue(n) => DataView::NumberValue(*n),
            Data::BooleanValue(b) => DataView::BooleanValue(*b),
            Data::DoubleValue(d) => DataView::DoubleValue(*d),
            Data::BytesValue(o) => DataView::BytesValue(o@),
        }
    }
}

impl Clone for Data {
    fn clone(&self) -> (r: Self)
        ensures
            r@ == self@,
    {
        match self {
            Data::TextValue(t) => Data::TextValue(t.clone()),
            Data::NumberValue(n) => Data::NumberValue(*n),
            Data::BooleanValue(b) => Data::BooleanValue(*b),
            Data::DoubleValue(d) => Data::DoubleValue(*d),
            Data::BytesValue(o) => Data::BytesValue(o.clone()),
        }
    }
}

/// The value of a metadata entry.
#[derive(Debug)]
pub struct MetaDataValue {
    pub data: Option<Data>,
}

impl View for MetaDataValue {
    type V = Option<DataView>;

    open spec fn view(&self) -> Option<DataView> {
        match self.data {
            Some(d) => Some(d@),
            None => None,
        }
    }
}

impl Clone for MetaDataValue {
    fn clone(&self) -> (r: Self)
        ensures
            r@ == self@,
    {
        match &self.data {
            Some(d) => MetaDataValue { data: Some(d.clone()) },
            None => MetaDataValue { data: None },
        }
    }
}

impl MetaDataValue {
    /// This value holds exactly the given text.
    pub open spec fn is_text(self, text: Seq<char>) -> bool {
        self@ == Some(DataView::TextValue(text))
    }
}

/// Metadata entries keyed by name.
pub type MetaData = TextMap<MetaDataValue>;

/// Wraps text as a metadata value.
pub fn text_to_meta_data_value(text: &str) -> (r: MetaDataValue)
    ensures
        r.is_text(text@),
{
    MetaDataValue { data: Some(Data::TextValue(text.to_owned())) }
}

/// The keys of processing instructions.
#[derive(Clone, Copy, Debug, PartialEq, Eq, Structural)]
pub enum ProcessingKey {
    RoutingKey,
    Priority,
    Timeout,
    NrOfResults,
}

/// The status values of a scheduled task.
#[derive(Clone, Copy, Debug, PartialEq, Eq, Structural)]
pub enum TaskStatus {
    Scheduled,
    Completed,
    Failed,
    Running,
    Cancelled,
}

/// An instruction for components that route or process a message.
#[derive(Debug)]
pub struct ProcessingInstruction {
    /// The number of a `ProcessingKey`, as it goes over the wire.
    pub key: i32,
    pub value: Option<MetaDataValue>,
}

/// The details of an error.
#[derive(Debug)]
pub struct ErrorMessage {
    pub message: String,
    pub location: String,
    pub details: Vec<String>,
    pub error_code: String,
}

/// A flow-control instruction: the counterpart may send this many more messages.
#[derive(Debug)]
pub struct FlowControl {
    pub client_id: String,
    pub permits: i64,
}

/// The acknowledgement of an instruction.
#[derive(Debug)]
pub struct InstructionAck {
    pub instruction_id: String,
    pub success: bool,
    pub error: Option<ErrorMessage>,
}

/// The result of executing an instruction.
#[derive(Debug)]
pub struct InstructionResult {
    pub instruction_id: String,
    pub success: bool,
    pub error: Option<ErrorMessage>,
}

/// A command to be routed to a component that can handle it.
#[derive(Debug)]
pub struct Command {
    pub message_identifier: String,
    pub name: String,
    pub timestamp: i64,
    pub payload: Option<SerializedObject>,
    pub meta_data: MetaData,
    pub processing_instructions: Vec<ProcessingInstruction>,
    pub client_id: String,
    pub component_name: String,
}

/// The result of handling a command.
#[derive(Debug)]
pub struct CommandResponse {
    pub message_identifier: String,
    pub error_code: String,
    pub error_message: Option<ErrorMessage>,
    pub payload: Option<SerializedObject>,
    pub meta_data: MetaData,
    pub processing_instructions: Vec<ProcessingInstruction>,
    pub request_identifier: String,
}

/// A component's announcement that it handles a type of command.
#[derive(Debug)]
pub struct CommandSubscription {
    pub message_id: String,
    pub command: String,
    pub component_name: String,
    pub client_id: String,
    pub load_factor: i32,
}

/// The instruction carried by a `CommandProviderOutbound`.
#[derive(Debug)]
pub enum CommandProviderOutboundRequest {
    Subscribe(CommandSubscription),
    Unsubscribe(CommandSubscription),
    FlowControl(FlowControl),
    CommandResponse(CommandResponse),
    Ack(InstructionAck),
}

/// An instruction from a command handling component to AxonServer.
#[derive(Debug)]
pub struct CommandProviderOutbound {
    pub instruction_id: String,
    pub request: Option<CommandProviderOutboundRequest>,
}

/// An event.
#[derive(Debug)]
pub struct Event {
    pub message_identifier: String,
    pub aggregate_identifier: String,
    pub aggregate_sequence_number: i64,
    pub aggregate_type: String,
    pub timestamp: i64,
    pub payload: Option<SerializedObject>,
    pub meta_data: MetaData,
    pub snapshot: bool,
}

/// An event together with its position in the event stream.
#[derive(Debug)]
pub struct EventWithToken {
    pub token: i64,
    pub event: Option<Event>,
}

/// A description of a payload type.
#[derive(Debug)]
pub struct PayloadDescription {
    pub payload_type: String,
    pub revision: String,
}

/// A request to open (or extend) a stream of events.
#[derive(Debug)]
pub struct GetEventsRequest {
    pub tracking_token: i64,
    pub number_of_permits: i64,
    pub client_id: String,
    pub component_name: String,
    pub processor: String,
    pub blacklist: Vec<PayloadDescription>,
    pub force_read_from_leader: bool,
}

/// A request for the events of one aggregate.
#[derive(Debug)]
pub struct GetAggregateEventsRequest {
    pub aggregate_id: String,
    pub initial_sequence: i64,
    pub allow_snapshots: bool,
    pub max_sequence: i64,
    pub min_token: i64,
}

/// A query.
#[derive(Debug)]
pub struct QueryRequest {
    pub message_identifier: String,
    pub query: String,
    pub timestamp: i64,
    pub payload: Option<SerializedObject>,
    pub meta_data: MetaData,
    pub response_type: Option<SerializedObject>,
    pub processing_instructions: Vec<ProcessingInstruction>,
    pub client_id: String,
    pub component_name: String,
}

/// A response to a query.
#[derive(Debug)]
pub struct QueryResponse {
    pub message_identifier: String,
    pub error_code: String,
    pub error_message: Option<ErrorMessage>,
    pub payload: Option<SerializedObject>,
    pub meta_data: MetaData,
    pub processing_instructions: Vec<ProcessingInstruction>,
    pub request_identifier: String,
}

/// The identification of a client application instance.
#[derive(Debug)]
pub struct ClientIdentification {
    pub client_id: String,
    pub component_name: String,
    pub tags: TextMap<String>,
    pub version: String,
}

/// The instruction carried by a `PlatformInboundInstruction`; this library
/// only ever registers a client.
#[derive(Debug)]
pub enum PlatformInboundRequest {
    Register(ClientIdentification),
}

/// An instruction from an application node to the AxonServer platform.
#[derive(Debug)]
pub struct PlatformInboundInstruction {
    pub instruction_id: String,
    pub request: Option<PlatformInboundRequest>,
}

} // verus!

verus! {

/// The value of metadata: each name mapped to the value of its entry.
pub open spec fn meta_data_view(m: Map<Seq<char>, MetaDataValue>) -> Map<Seq<char>, Option<DataView>> {
    Map::new(|k: Seq<char>| m.contains_key(k), |k: Seq<char>| m[k]@)
}

/// A copy of metadata with the same names, in the same order, and equal values.
pub fn clone_meta_data(m: &MetaData) -> (r: MetaData)
    requires
        m.wf(),
    ensures
        r.wf(),
        r.key_seq() == m.key_seq(),
        meta_data_view(r@) == meta_data_view(m@),
{
    let r = m.duplicate();
    assert forall|k: Seq<char>| #[trigger] r@.contains_key(k) implies r@[k]@ == m@[k]@ by {
        assert(cloned::<MetaDataValue>(m@[k], r@[k]));
    }
    assert(meta_data_view(r@) =~= meta_data_view(m@));
    r
}

} // verus!

verus! {

/// Wraps an encoded message as a serialized object of the given type with an
/// empty revision.
pub fn axon_serialize(type_label: &str, data: Vec<u8>) -> (r: SerializedObject)
    ensures
        r@ == (SerializedObjectView {
            payload_type: type_label@,
            revision: Seq::<char>::empty(),
            data: data@,
        }),
{
    proof {
        reveal_strlit("");
        assert(""@ =~= Seq::<char>::empty());
    }
    serialized_object(type_label, "", data)
}

} // verus!
