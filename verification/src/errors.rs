//! Error values of the library.

use vstd::prelude::*;
use vstd::std_specs::convert::FromSpecImpl;

verus! {

/// A failure after which the program cannot go on.
#[derive(Debug, Clone, Copy, PartialEq, Eq, Structural)]
pub struct UnrecoverableError;

/// A command that an aggregate refuses to handle, with the text attached
/// to say why, where there is one.
#[derive(Debug)]
pub struct CommandRejected {
    pub attachment: Option<String>,
}

/// The text attached when a command is not one that creates.
pub open spec fn invalid_command_text() -> Seq<char> {
    "Invalid command"@
}

impl CommandRejected {
    /// The rejection of a command that does not fit, with the text
    /// "Invalid command" attached.
    pub fn invalid_command() -> (e: CommandRejected)
        ensures
            e.attachment is Some,
            e.attachment->0@ == invalid_command_text(),
    {
        CommandRejected { attachment: Some(String::from_str("Invalid command")) }
    }
}

impl Clone for CommandRejected {
    fn clone(&self) -> (c: Self)
        ensures
            c == *self,
    {
        match &self.attachment {
            Some(text) => CommandRejected { attachment: Some(text.clone()) },
            None => CommandRejected { attachment: None },
        }
    }
}

/// A reply that could not be delivered because its receiver is gone.
#[derive(Debug, Clone, Copy, PartialEq, Eq, Structural)]
pub struct ChannelDropped;

/// An event could not be turned into bytes.
#[derive(Debug)]
pub struct SerializeError {
    pub message: String,
}

/// Bytes of the journal could not be turned back into an event.
#[derive(Debug)]
pub struct DeserializeError {
    pub message: String,
}

/// Reading the journal failed: in the storage itself, or while decoding an event.
#[derive(Debug)]
pub enum ReadError {
    Storage { message: String },
    Deserialize(DeserializeError),
}

/// Appending to the journal failed: in the storage itself, or while encoding the event.
#[derive(Debug)]
pub enum WriteError {
    Storage { message: String },
    Serialize(SerializeError),
}

impl From<DeserializeError> for ReadError {
    fn from(err: DeserializeError) -> (r: ReadError) {
        ReadError::Deserialize(err)
    }
}

impl FromSpecImpl<DeserializeError> for ReadError {
    open spec fn obeys_from_spec() -> bool {
        true
    }

    open spec fn from_spec(v: DeserializeError) -> ReadError {
        ReadError::Deserialize(v)
    }
}

impl From<SerializeError> for WriteError {
    fn from(err: SerializeError) -> (r: WriteError) {
        WriteError::Serialize(err)
    }
}

impl FromSpecImpl<SerializeError> for WriteError {
    open spec fn obeys_from_spec() -> bool {
        true
    }

    open spec fn from_spec(v: SerializeError) -> WriteError {
        WriteError::Serialize(v)
    }
}

} // verus!
