//! The messages of the protocol and the ways a message can be refused.

use vstd::prelude::*;
use crate::map::MapIndex;

verus! {

/// Declares the type of a server-to-client message.
#[derive(Clone, Copy, Debug, PartialEq, Eq, Structural)]
pub enum MessageType {
    /// Acknowledges a join; the body is the entity id given to the player.
    Join,
    /// Carries one tick's changes; the body is the delta payload.
    Update,
}

impl MessageType {
    /// The flag that opens the envelope of a message of this type.
    pub open spec fn flag(self) -> u8 {
        match self {
            MessageType::Join => 0,
            MessageType::Update => 1,
        }
    }

    /// Returns the flag byte written in front of the message body.
    pub fn message_flag(&self) -> (flag: u8)
        ensures
            flag == self.flag(),
    {
        match self {
            MessageType::Join => 0,
            MessageType::Update => 1,
        }
    }
}

/// Errors that occur when processing messages.
#[derive(Clone, Copy, Debug, PartialEq, Eq, Structural)]
pub enum MessageError {
    /// The frame is no binary frame, its bytes decode to no value, or the
    /// value is no array.
    Malformed,
    /// The array has the wrong length, or a field of it the wrong type.
    MissingData,
    /// The message type is none that the server knows.
    EventType,
}

impl MessageError {
    /// The name of the error, as it is logged.
    pub fn name(&self) -> (name: String)
        ensures
            name@ == match self {
                MessageError::Malformed => "Malformed"@,
                MessageError::MissingData => "MissingData"@,
                MessageError::EventType => "EventType"@,
            },
    {
        match self {
            MessageError::Malformed => "Malformed".to_owned(),
            MessageError::MissingData => "MissingData".to_owned(),
            MessageError::EventType => "EventType".to_owned(),
        }
    }
}

/// A client-to-server message as the contracts see it.
pub enum ClientMessageModel {
    Join(Seq<char>),
    Move(MapIndex),
}

/// What a client asks of the server.
#[derive(Debug, PartialEq, Eq)]
pub enum ClientMessage {
    /// Join the game under this name.
    Join(String),
    /// Move the player towards this square.
    Move(MapIndex),
}

impl View for ClientMessage {
    type V = ClientMessageModel;

    open spec fn view(&self) -> ClientMessageModel {
        match self {
            ClientMessage::Join(name) => ClientMessageModel::Join(name@),
            ClientMessage::Move(index) => ClientMessageModel::Move(*index),
        }
    }
}

/// The model of what parsing gave: of the message, or the error as it is.
pub open spec fn outcome_model(outcome: Result<ClientMessage, MessageError>) -> Result<
    ClientMessageModel,
    MessageError,
> {
    match outcome {
        Ok(message) => Ok(message@),
        Err(error) => Err(error),
    }
}

} // verus!
