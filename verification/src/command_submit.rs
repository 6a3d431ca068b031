//! Submitting commands to AxonServer.
//!
//! A `SubmitCommand` collects a command type, the encoded command and its
//! metadata.  Sending it wraps the command in a `Command` message for
//! AxonServer; the answer is either the handler's response payload (if any)
//! or the error message that AxonServer returned.
use crate::ids::new_message_identifier;
use crate::messages::{
    serialized_object, text_to_meta_data_value, Command, CommandResponse, MetaData, MetaDataValue,
    SerializedObject, SerializedObjectView,
};
use crate::text_map::TextMap;
use vstd::prelude::*;

verus! {

/// The metadata key under which a correlation identifier travels with a
/// command and with the events that it causes.
pub const CORRELATION_ID_KEY: &'static str = "dendrite::correlation_id";

/// The correlation key's text.
pub proof fn lemma_correlation_id_key_text()
    ensures
        CORRELATION_ID_KEY@ == "dendrite::correlation_id"@,
{
}

/// The revision that this library gives to a serialized command.
pub const COMMAND_REVISION: &'static str = "1";

/// Why a command could not be sent.
#[derive(Debug, PartialEq, Eq, Structural)]
pub enum SubmitError {
    /// The command type is empty.
    EmptyCommandType,
    /// No command was given.
    MissingCommand,
}

/// A command to be sent, built step by step.
#[derive(Debug)]
pub struct SubmitCommand {
    command_type: String,
    command: Option<Vec<u8>>,
    metadata: MetaData,
}

impl SubmitCommand {
    pub closed spec fn wf(self) -> bool {
        self.metadata.wf()
    }

    /// The command type.
    pub closed spec fn command_type(self) -> Seq<char> {
        self.command_type@
    }

    /// The encoded command, if one was given.
    pub closed spec fn encoded(self) -> Option<Seq<u8>> {
        match self.command {
            Some(c) => Some(c@),
            None => None,
        }
    }

    /// The metadata entries.
    pub closed spec fn meta(self) -> Map<Seq<char>, MetaDataValue> {
        self.metadata@
    }

    /// The names of the metadata entries, in the order of their first insertion.
    pub closed spec fn meta_names(self) -> Seq<Seq<char>> {
        self.metadata.key_seq()
    }

    /// A command of the given type with its encoded form and no metadata.
    pub fn new(command_type: &str, command: Vec<u8>) -> (r: SubmitCommand)
        ensures
            r.wf(),
            r.command_type() == command_type@,
            r.encoded() == Some(command@),
            r.meta() == Map::<Seq<char>, MetaDataValue>::empty(),
    {
        SubmitCommand {
            command_type: command_type.to_owned(),
            command: Some(command),
            metadata: TextMap::new(),
        }
    }

    /// Sets the command type and the encoded command; the metadata stays.
    pub fn command(&mut self, command_type: &str, command: Vec<u8>) -> (r: &mut SubmitCommand)
        requires
            old(self).wf(),
        ensures
            r.wf(),
            r.command_type() == command_type@,
            r.encoded() == Some(command@),
            r.meta() == old(self).meta(),
            r.meta_names() == old(self).meta_names(),
            *final(self) == *final(r),
    {
        self.command_type = command_type.to_owned();
        self.command = Some(command);
        self
    }

    /// Adds (or replaces) the metadata entry with the given key by a copy of the value.
    pub fn annotation(&mut self, key: &str, value: &MetaDataValue) -> (r: &mut SubmitCommand)
        requires
            old(self).wf(),
        ensures
            r.wf(),
            r.command_type() == old(self).command_type(),
            r.encoded() == old(self).encoded(),
            r.meta().dom() == old(self).meta().dom().insert(key@),
            r.meta()[key@]@ == value@,
            old(self).meta().contains_key(key@) ==> r.meta_names() == old(self).meta_names(),
            !old(self).meta().contains_key(key@) ==> r.meta_names() == old(self).meta_names().push(
                key@,
            ),
            forall|k: Seq<char>|
                k != key@ && #[trigger] old(self).meta().contains_key(k) ==> r.meta()[k]
                    == old(self).meta()[k],
            *final(self) == *final(r),
    {
        self.metadata.insert(key.to_owned(), value.clone());
        self
    }

    /// Adds (or replaces) the metadata entry with the given key by the given text.
    pub fn text_annotation(&mut self, key: &str, value: &str) -> (r: &mut SubmitCommand)
        requires
            old(self).wf(),
        ensures
            r.wf(),
            r.command_type() == old(self).command_type(),
            r.encoded() == old(self).encoded(),
            r.meta().dom() == old(self).meta().dom().insert(key@),
            r.meta()[key@].is_text(value@),
            old(self).meta().contains_key(key@) ==> r.meta_names() == old(self).meta_names(),
            !old(self).meta().contains_key(key@) ==> r.meta_names() == old(self).meta_names().push(
                key@,
            ),
            forall|k: Seq<char>|
                k != key@ && #[trigger] old(self).meta().contains_key(k) ==> r.meta()[k]
                    == old(self).meta()[k],
            *final(self) == *final(r),
    {
        self.metadata.insert(key.to_owned(), text_to_meta_data_value(value));
        self
    }

    /// Attaches a correlation identifier to the command.
    pub fn correlation_id(&mut self, correlation_id: &str) -> (r: &mut SubmitCommand)
        requires
            old(self).wf(),
        ensures
            r.wf(),
            r.command_type() == old(self).command_type(),
            r.encoded() == old(self).encoded(),
            r.meta().dom() == old(self).meta().dom().insert(CORRELATION_ID_KEY@),
            r.meta()[CORRELATION_ID_KEY@].is_text(correlation_id@),
            old(self).meta().contains_key(CORRELATION_ID_KEY@) ==> r.meta_names() == old(
                self,
            ).meta_names(),
            !old(self).meta().contains_key(CORRELATION_ID_KEY@) ==> r.meta_names() == old(
                self,
            ).meta_names().push(CORRELATION_ID_KEY@),
            forall|k: Seq<char>|
                k != CORRELATION_ID_KEY@ && #[trigger] old(self).meta().contains_key(k)
                    ==> r.meta()[k] == old(self).meta()[k],
            *final(self) == *final(r),
    {
        self.metadata.insert(CORRELATION_ID_KEY.to_owned(), text_to_meta_data_value(correlation_id));
        self
    }

    /// The metadata entries.
    pub fn meta_data(&self) -> (m: &MetaData)
        ensures
            m.wf() == self.wf(),
            m@ == self.meta(),
            m.key_seq() == self.meta_names(),
    {
        &self.metadata
    }

    /// The serialized command that sending it would submit: its type, revision
    /// "1" and the encoded command.  Fails when the command type is empty
    /// (checked first) or when no command was given.
    pub fn serialized_command(&self) -> (r: Result<SerializedObject, SubmitError>)
        ensures
            self.command_type().len() == 0 ==> r == Err::<SerializedObject, _>(
                SubmitError::EmptyCommandType,
            ),
            self.command_type().len() != 0 && self.encoded() is None ==> r == Err::<
                SerializedObject,
                _,
            >(SubmitError::MissingCommand),
            self.command_type().len() != 0 && self.encoded() is Some ==> (r matches Ok(o) && o@
                == (SerializedObjectView {
                payload_type: self.command_type(),
                revision: COMMAND_REVISION@,
                data: self.encoded().unwrap(),
            })),
    {
        if self.command_type.as_str().is_empty() {
            return Err(SubmitError::EmptyCommandType);
        }
        match &self.command {
            Some(command) => {
                let data = command.clone();
                assert(data@ =~= command@);
                Ok(serialized_object(self.command_type.as_str(), COMMAND_REVISION, data))
            },
            None => Err(SubmitError::MissingCommand),
        }
    }
}

impl Default for SubmitCommand {
    fn default() -> (r: SubmitCommand)
        ensures
            r.wf(),
            r.command_type() == Seq::<char>::empty(),
            r.encoded() is None,
            r.meta() == Map::<Seq<char>, MetaDataValue>::empty(),
    {
        SubmitCommand { command_type: String::new(), command: None, metadata: TextMap::new() }
    }
}

/// Serializes an encoded command of the given type with revision "1".
pub fn serialize_command(command_type: &str, data: Vec<u8>) -> (r: SerializedObject)
    ensures
        r@ == (SerializedObjectView {
            payload_type: command_type@,
            revision: COMMAND_REVISION@,
            data: data@,
        }),
{
    serialized_object(command_type, COMMAND_REVISION, data)
}

/// The `Command` message that submits a serialized command for the given
/// client: a fresh message identifier, the name of the command's type, the
/// command as payload, the metadata, no processing instructions, timestamp 0.
pub fn build_command(
    message: SerializedObject,
    client_id: &str,
    component_name: &str,
    meta_data: MetaData,
) -> (c: Command)
    ensures
        crate::ids::is_v4_uuid_text(c.message_identifier@),
        c.name@ == message.payload_type@,
        c.payload == Some(message),
        c.client_id@ == client_id@,
        c.component_name@ == component_name@,
        c.meta_data == meta_data,
        c.processing_instructions@.len() == 0,
        c.timestamp == 0,
{
    let message_identifier = new_message_identifier();
    let name = message.payload_type.clone();
    Command {
        message_identifier,
        name,
        payload: Some(message),
        client_id: client_id.to_owned(),
        component_name: component_name.to_owned(),
        meta_data,
        processing_instructions: Vec::new(),
        timestamp: 0,
    }
}

/// What submitting a command gives back, from AxonServer's response: the
/// message of its error, if it reports one, and otherwise its payload.
pub fn submit_outcome(response: CommandResponse) -> (r: Result<Option<SerializedObject>, String>)
    ensures
        match response.error_message {
            Some(e) => r == Err::<Option<SerializedObject>, String>(e.message),
            None => r == Ok::<Option<SerializedObject>, String>(response.payload),
        },
{
    match response.error_message {
        Some(e) => Err(e.message),
        None => Ok(response.payload),
    }
}

} // verus!
