//! One connection, as a state machine. The transport hands in what happens
//! on the connection; the session answers with what is to be done: an event
//! to forward to the game, an error to log, the leave to announce, the socket
//! to close.

use vstd::prelude::*;
use crate::map::{EntityId, MapIndex};
use crate::message::{ClientMessage, ClientMessageModel, MessageError, MessageType, outcome_model};
use crate::wire::codec::{bytes_of, decode, decoding, encode};
use crate::wire::envelope::{
    CLIENT_JOIN,
    CLIENT_MOVE,
    ServerMessageModel,
    UpdatePayload,
    client_message_of,
    envelope,
    join_of,
    move_of,
    server_envelope,
};
use crate::wire::value::{WireModel, WireValue};

verus! {

/// One frame from the transport.
#[derive(Debug, PartialEq, Eq)]
pub enum Frame {
    /// A binary frame: the bytes of one message.
    Binary(Vec<u8>),
    /// A text frame. The protocol has none.
    Text(String),
}

/// Why the transport closed a connection.
#[derive(Clone, Copy, Debug, PartialEq, Eq, Structural)]
pub enum CloseCode {
    /// The client is done with the connection.
    Normal,
    /// The client is leaving the site.
    Away,
    /// Anything else.
    Other,
}

/// What to write in the log when a connection closes.
#[derive(Clone, Copy, Debug, PartialEq, Eq, Structural)]
pub enum CloseNotice {
    /// The client is done with the connection.
    Done,
    /// The client is leaving the site.
    Leaving,
    /// The client met an error; the transport's reason says which.
    Failed,
}

/// What is to be done when a connection closes.
#[derive(Clone, Copy, Debug, PartialEq, Eq, Structural)]
pub struct Closing {
    /// Whether to send the leave event to the game.
    pub leave: bool,
    /// Whether to close the socket.
    pub close_socket: bool,
}

/// What is to be done with a frame.
#[derive(Debug, PartialEq, Eq)]
pub enum Reaction {
    /// Forward this event to the game: a join on the join channel, a move on
    /// the move channel.
    Forward(ClientMessage),
    /// Log this error and drop the frame. The connection stays open.
    Drop(MessageError),
}

/// What a frame says: a text frame and bytes that decode to nothing are
/// malformed; bytes that decode to a value say what the value says.
pub open spec fn frame_message(frame: Frame) -> Result<ClientMessageModel, MessageError> {
    match frame {
        Frame::Binary(data) => match decoding(data@) {
            Some(value) => client_message_of(value),
            None => Err(MessageError::Malformed),
        },
        Frame::Text(_) => Err(MessageError::Malformed),
    }
}

/// Handles one connection. It forwards what the client says to the game and
/// announces exactly once that the client has left.
#[derive(Debug)]
pub struct Client {
    is_open: bool,
    has_left: bool,
}

impl Client {
    /// Whether the connection is open.
    pub closed spec fn open(&self) -> bool {
        self.is_open
    }

    /// Whether the leave event has been sent.
    pub closed spec fn left(&self) -> bool {
        self.has_left
    }

    /// The session of a connection that is about to open.
    pub fn new() -> (client: Client)
        ensures
            !client.open(),
            !client.left(),
    {
        Client { is_open: false, has_left: false }
    }

    /// Whether the connection is open.
    pub fn is_open(&self) -> (open: bool)
        ensures
            open == self.open(),
    {
        self.is_open
    }

    /// The connection has opened. A session that has left stays closed.
    pub fn on_open(&mut self)
        ensures
            final(self).open() == !old(self).left(),
            final(self).left() == old(self).left(),
    {
        self.is_open = !self.has_left;
    }

    /// What closing the session asks for: the leave event and the closing
    /// of the socket where the session has not left yet, nothing where it
    /// has.
    pub open spec fn closing(&self) -> Closing {
        Closing { leave: !self.left(), close_socket: !self.left() }
    }

    /// Closes the session. The first call asks for the leave event and for
    /// the socket to be closed; every later call asks for nothing.
    pub fn close(&mut self) -> (closing: Closing)
        ensures
            closing == old(self).closing(),
            final(self).left(),
            !final(self).open(),
    {
        let first = !self.has_left;
        self.has_left = true;
        self.is_open = false;
        Closing { leave: first, close_socket: first }
    }

    /// What to log for a close code.
    pub open spec fn notice_for(code: CloseCode) -> CloseNotice {
        match code {
            CloseCode::Normal => CloseNotice::Done,
            CloseCode::Away => CloseNotice::Leaving,
            CloseCode::Other => CloseNotice::Failed,
        }
    }

    /// The transport has closed the connection.
    pub fn on_close(&mut self, code: CloseCode) -> (r: (CloseNotice, Closing))
        ensures
            r.0 == Self::notice_for(code),
            r.1 == old(self).closing(),
            final(self).left(),
            !final(self).open(),
    {
        let notice = match code {
            CloseCode::Normal => CloseNotice::Done,
            CloseCode::Away => CloseNotice::Leaving,
            CloseCode::Other => CloseNotice::Failed,
        };
        (notice, self.close())
    }

    /// The transport has met an error, or a write to the socket has failed.
    pub fn on_error(&mut self) -> (closing: Closing)
        ensures
            closing == old(self).closing(),
            final(self).left(),
            !final(self).open(),
    {
        self.close()
    }

    /// Reads the body of a join: the name to join under.
    pub fn join_game(&self, data: &WireValue) -> (r: Result<ClientMessage, MessageError>)
        ensures
            outcome_model(r) == join_of(data@),
    {
        match data.as_str() {
            Some(name) => Ok(ClientMessage::Join(name.to_owned())),
            None => Err(MessageError::MissingData),
        }
    }

    /// Reads the body of a move: the square to move to.
    pub fn move_player(&self, data: &WireValue) -> (r: Result<ClientMessage, MessageError>)
        ensures
            outcome_model(r) == move_of(data@),
    {
        let pair = match data.as_array() {
            Some(pair) => pair,
            None => {
                return Err(MessageError::MissingData);
            },
        };
        if pair.len() != 2 {
            return Err(MessageError::MissingData);
        }
        match (pair[0].as_i64(), pair[1].as_i64()) {
            (Some(x), Some(y)) => Ok(ClientMessage::Move(MapIndex::new(x, y))),
            _ => Err(MessageError::MissingData),
        }
    }

    /// Reads what a decoded value says.
    pub fn parse_value(&self, value: &WireValue) -> (r: Result<ClientMessage, MessageError>)
        ensures
            outcome_model(r) == client_message_of(value@),
    {
        let message = match value.as_array() {
            Some(message) => message,
            None => {
                return Err(MessageError::Malformed);
            },
        };
        if message.len() != 2 {
            return Err(MessageError::MissingData);
        }
        match message[0].as_u64() {
            None => Err(MessageError::MissingData),
            Some(message_type) => if message_type == CLIENT_JOIN {
                self.join_game(&message[1])
            } else if message_type == CLIENT_MOVE {
                self.move_player(&message[1])
            } else {
                Err(MessageError::EventType)
            },
        }
    }

    /// Decodes a frame and reads what it says.
    pub fn parse_message(&self, frame: &Frame) -> (r: Result<ClientMessage, MessageError>)
        ensures
            outcome_model(r) == frame_message(*frame),
    {
        match frame {
            Frame::Binary(data) => match decode(data.as_slice()) {
                Some(value) => self.parse_value(&value),
                None => Err(MessageError::Malformed),
            },
            Frame::Text(_) => Err(MessageError::Malformed),
        }
    }

    /// A frame has arrived. What it says is forwarded; a frame that says
    /// nothing the server understands is dropped with its error. Neither
    /// changes the session.
    pub fn on_message(&self, frame: &Frame) -> (reaction: Reaction)
        ensures
            match reaction {
                Reaction::Forward(message) => frame_message(*frame) == Ok::<
                    ClientMessageModel,
                    MessageError,
                >(message@),
                Reaction::Drop(error) => frame_message(*frame) == Err::<
                    ClientMessageModel,
                    MessageError,
                >(error),
            },
    {
        match self.parse_message(frame) {
            Ok(message) => Reaction::Forward(message),
            Err(error) => Reaction::Drop(error),
        }
    }
}

/// However a session is closed and closed again, the leave event and the
/// closing of the socket are asked for exactly once: by the first close of
/// a session that has not left, and by no close after it.
pub proof fn law_close_once(before: Client, after: Client)
    requires
        after.left(),
    ensures
        before.closing() == (Closing { leave: !before.left(), close_socket: !before.left() }),
        after.closing() == (Closing { leave: false, close_socket: false }),
{
}

/// The bytes of a message from the server: the envelope, encoded. `None`
/// where the body nests too deep to be encoded or the codec reports an
/// error.
pub fn message_frame(message_type: MessageType, message_body: WireValue) -> (frame: Option<
    Vec<u8>,
>)
    ensures
        bytes_of(server_envelope(message_type, message_body@)) == match frame {
            Some(bytes) => Some(bytes@),
            None => None,
        },
{
    let message = envelope(message_type, message_body);
    encode(&message)
}

/// The bytes of the message that tells a client the id of its player.
pub fn join_frame(player_id: EntityId) -> (frame: Option<Vec<u8>>)
    ensures
        bytes_of(ServerMessageModel::Join(player_id).envelope()) == match frame {
            Some(bytes) => Some(bytes@),
            None => None,
        },
{
    message_frame(MessageType::Join, WireValue::Unsigned(player_id))
}

/// The bytes of the message that carries the changes of one tick.
pub fn update_frame(update: UpdatePayload) -> (frame: Option<Vec<u8>>)
    ensures
        bytes_of(ServerMessageModel::Update(update@).envelope()) == match frame {
            Some(bytes) => Some(bytes@),
            None => None,
        },
{
    message_frame(MessageType::Update, update.into_value())
}

} // verus!
