//! The two envelopes of the protocol, as wire values.
//!
//! A client sends `[type, body]`: type 0 with the name to join under, type 1
//! with the square `[x, y]` to move to. The server sends `[flag, body]`:
//! flag 0 with the id given to the player, flag 1 with the changes of one
//! tick, `[map size, appeared, updated, disappeared, destroyed]`.

use vstd::prelude::*;
use crate::map::{EntityId, MapIndex, MapSize};
use crate::message::{ClientMessage, ClientMessageModel, MessageError, MessageType};
use crate::wire::value::{WireModel, WireValue, lemma_array_view, models};

verus! {

/// The message type that asks to join.
pub const CLIENT_JOIN: u64 = 0;

/// The message type that asks to move.
pub const CLIENT_MOVE: u64 = 1;

/// What the body of a join holds: the name, where the body is a string.
pub open spec fn join_of(body: WireModel) -> Result<ClientMessageModel, MessageError> {
    match body.as_text() {
        Some(name) => Ok(ClientMessageModel::Join(name)),
        None => Err(MessageError::MissingData),
    }
}

/// What the body of a move holds: the square, where the body is an array of
/// two integers that fit an `i64`.
pub open spec fn move_of(body: WireModel) -> Result<ClientMessageModel, MessageError> {
    match body.as_items() {
        Some(pair) if pair.len() == 2 => match (pair[0].as_signed(), pair[1].as_signed()) {
            (Some(x), Some(y)) => Ok(ClientMessageModel::Move(MapIndex { x, y })),
            _ => Err(MessageError::MissingData),
        },
        _ => Err(MessageError::MissingData),
    }
}

/// What a value from a client says. A value that is no array is malformed;
/// an array of another length than two, a type that is no unsigned integer
/// or a body of the wrong shape misses data; a type other than 0 and 1 is
/// an unknown event.
pub open spec fn client_message_of(value: WireModel) -> Result<ClientMessageModel, MessageError> {
    match value {
        WireModel::Array(items) => if items.len() != 2 {
            Err(MessageError::MissingData)
        } else {
            match items[0].as_unsigned() {
                None => Err(MessageError::MissingData),
                Some(kind) => if kind == CLIENT_JOIN {
                    join_of(items[1])
                } else if kind == CLIENT_MOVE {
                    move_of(items[1])
                } else {
                    Err(MessageError::EventType)
                },
            }
        },
        _ => Err(MessageError::Malformed),
    }
}

/// The value that carries a message from a client.
pub open spec fn client_envelope(message: ClientMessageModel) -> WireModel {
    match message {
        ClientMessageModel::Join(name) => WireModel::Array(
            seq![WireModel::Integer(CLIENT_JOIN as int), WireModel::String(name)],
        ),
        ClientMessageModel::Move(index) => WireModel::Array(
            seq![
                WireModel::Integer(CLIENT_MOVE as int),
                WireModel::Array(
                    seq![WireModel::Integer(index.x as int), WireModel::Integer(index.y as int)],
                ),
            ],
        ),
    }
}

/// The value that carries a message from the server: the flag of the
/// message type, then the body.
pub open spec fn server_envelope(message_type: MessageType, body: WireModel) -> WireModel {
    WireModel::Array(seq![WireModel::Integer(message_type.flag() as int), body])
}

/// A run of ids as wire values.
pub open spec fn id_models(ids: Seq<EntityId>) -> Seq<WireModel> {
    Seq::new(ids.len(), |i: int| WireModel::Integer(ids[i] as int))
}

/// The changes of one tick as the contracts see them.
pub struct UpdateModel {
    pub map_size: MapSize,
    pub appeared: Seq<WireModel>,
    pub updated: Seq<WireModel>,
    pub disappeared: Seq<EntityId>,
    pub destroyed: Seq<EntityId>,
}

impl UpdateModel {
    /// The body of an update: the map size, the records of the entities
    /// that appeared, the records of those that changed, the ids of those
    /// that went out of view and the ids of those that were destroyed.
    pub open spec fn payload(self) -> WireModel {
        WireModel::Array(
            seq![
                self.map_size.model(),
                WireModel::Array(self.appeared),
                WireModel::Array(self.updated),
                WireModel::Array(id_models(self.disappeared)),
                WireModel::Array(id_models(self.destroyed)),
            ],
        )
    }
}

/// The changes of one tick, ready to be sent.
#[derive(Debug, PartialEq)]
pub struct UpdatePayload {
    /// The size of the map.
    pub map_size: MapSize,
    /// The complete records of the entities that came into view.
    pub appeared: Vec<WireValue>,
    /// The records of what changed in the entities still in view.
    pub updated: Vec<WireValue>,
    /// The ids of the entities that went out of view.
    pub disappeared: Vec<EntityId>,
    /// The ids of the entities that were destroyed.
    pub destroyed: Vec<EntityId>,
}

impl View for UpdatePayload {
    type V = UpdateModel;

    open spec fn view(&self) -> UpdateModel {
        UpdateModel {
            map_size: self.map_size,
            appeared: models(self.appeared@),
            updated: models(self.updated@),
            disappeared: self.disappeared@,
            destroyed: self.destroyed@,
        }
    }
}

/// A server-to-client message as the contracts see it.
pub enum ServerMessageModel {
    Join(EntityId),
    Update(UpdateModel),
}

impl ServerMessageModel {
    /// The value that carries the message.
    pub open spec fn envelope(self) -> WireModel {
        match self {
            ServerMessageModel::Join(id) => server_envelope(
                MessageType::Join,
                WireModel::Integer(id as int),
            ),
            ServerMessageModel::Update(update) => server_envelope(
                MessageType::Update,
                update.payload(),
            ),
        }
    }
}

/// What the server tells a client.
#[derive(Debug, PartialEq)]
pub enum ServerMessage {
    /// The client has joined; this is the id of its player.
    Join(EntityId),
    /// The changes of one tick.
    Update(UpdatePayload),
}

impl View for ServerMessage {
    type V = ServerMessageModel;

    open spec fn view(&self) -> ServerMessageModel {
        match self {
            ServerMessage::Join(id) => ServerMessageModel::Join(*id),
            ServerMessage::Update(update) => ServerMessageModel::Update(update@),
        }
    }
}

/// The ids that a run of values holds, where every value is an unsigned
/// integer.
pub open spec fn ids_of(items: Seq<WireModel>) -> Option<Seq<EntityId>> {
    if forall|i: int| 0 <= i < items.len() ==> (#[trigger] items[i]).as_unsigned() is Some {
        Some(Seq::new(items.len(), |i: int| items[i].as_unsigned()->0))
    } else {
        None
    }
}

/// The size that a value holds, where it is an array of two unsigned
/// integers.
pub open spec fn size_of(value: WireModel) -> Option<MapSize> {
    match value.as_items() {
        Some(pair) if pair.len() == 2 => match (pair[0].as_unsigned(), pair[1].as_unsigned()) {
            (Some(width), Some(height)) => Some(MapSize { width, height }),
            _ => None,
        },
        _ => None,
    }
}

/// The update that a body holds, where it has the five parts of one.
pub open spec fn update_of(body: WireModel) -> Option<UpdateModel> {
    match body.as_items() {
        Some(parts) if parts.len() == 5 => match (
            size_of(parts[0]),
            parts[1].as_items(),
            parts[2].as_items(),
            parts[3].as_items(),
            parts[4].as_items(),
        ) {
            (Some(map_size), Some(appeared), Some(updated), Some(gone), Some(dead)) => match (
                ids_of(gone),
                ids_of(dead),
            ) {
                (Some(disappeared), Some(destroyed)) => Some(
                    UpdateModel { map_size, appeared, updated, disappeared, destroyed },
                ),
                _ => None,
            },
            _ => None,
        },
        _ => None,
    }
}

/// What a value from the server says, under the same rules for refusal as
/// a value from a client.
pub open spec fn server_message_of(value: WireModel) -> Result<ServerMessageModel, MessageError> {
    match value {
        WireModel::Array(items) => if items.len() != 2 {
            Err(MessageError::MissingData)
        } else {
            match items[0].as_unsigned() {
                None => Err(MessageError::MissingData),
                Some(flag) => if flag == MessageType::Join.flag() {
                    match items[1].as_unsigned() {
                        Some(id) => Ok(ServerMessageModel::Join(id)),
                        None => Err(MessageError::MissingData),
                    }
                } else if flag == MessageType::Update.flag() {
                    match update_of(items[1]) {
                        Some(update) => Ok(ServerMessageModel::Update(update)),
                        None => Err(MessageError::MissingData),
                    }
                } else {
                    Err(MessageError::EventType)
                },
            }
        },
        _ => Err(MessageError::Malformed),
    }
}

/// Reading the envelope of a client's message gives the message back.
pub proof fn law_client_round_trip(message: ClientMessageModel)
    ensures
        client_message_of(client_envelope(message)) == Ok::<ClientMessageModel, MessageError>(
            message,
        ),
{
}

/// Reading a run of ids written as wire values gives the ids back.
pub proof fn law_ids_round_trip(ids: Seq<EntityId>)
    ensures
        ids_of(id_models(ids)) == Some(ids),
{
    assert(ids_of(id_models(ids))->0 =~= ids);
}

/// Reading the envelope of a server's message gives the message back.
pub proof fn law_server_round_trip(message: ServerMessageModel)
    ensures
        server_message_of(message.envelope()) == Ok::<ServerMessageModel, MessageError>(message),
{
    match message {
        ServerMessageModel::Join(id) => {},
        ServerMessageModel::Update(update) => {
            law_ids_round_trip(update.disappeared);
            law_ids_round_trip(update.destroyed);
            let parts = update.payload()->Array_0;
            assert(size_of(parts[0]) == Some(update.map_size));
            assert(update_of(update.payload()) == Some(update));
        },
    }
}

/// An integer as a wire value, held as unsigned where it is not negative.
pub fn integer_value(n: i64) -> (value: WireValue)
    ensures
        value@ == WireModel::Integer(n as int),
{
    if n < 0 {
        WireValue::Signed(n)
    } else {
        WireValue::Unsigned(n as u64)
    }
}

/// The array of two values.
fn pair_value(first: WireValue, second: WireValue) -> (value: WireValue)
    ensures
        value@ == WireModel::Array(seq![first@, second@]),
{
    let mut items: Vec<WireValue> = Vec::new();
    items.push(first);
    items.push(second);
    proof {
        lemma_array_view(items);
        assert(models(items@) =~= seq![first@, second@]);
    }
    WireValue::Array(items)
}

/// The array of a run of values.
fn array_value(items: Vec<WireValue>) -> (value: WireValue)
    ensures
        value@ == WireModel::Array(models(items@)),
{
    proof {
        lemma_array_view(items);
    }
    WireValue::Array(items)
}

/// A run of ids as wire values.
pub fn id_values(ids: &Vec<EntityId>) -> (values: Vec<WireValue>)
    ensures
        models(values@) == id_models(ids@),
{
    let mut values: Vec<WireValue> = Vec::new();
    let mut i: usize = 0;
    while i < ids.len()
        invariant
            i <= ids.len(),
            values@.len() == i,
            forall|j: int| 0 <= j < i ==> (#[trigger] values@[j])@ == WireModel::Integer(ids@[j] as int),
        decreases ids.len() - i,
    {
        values.push(WireValue::Unsigned(ids[i]));
        i += 1;
    }
    assert(models(values@) =~= id_models(ids@));
    values
}

impl ClientMessage {
    /// The value that carries this message.
    pub fn to_value(&self) -> (value: WireValue)
        ensures
            value@ == client_envelope(self@),
    {
        match self {
            ClientMessage::Join(name) => pair_value(
                WireValue::Unsigned(CLIENT_JOIN),
                WireValue::String(name.clone()),
            ),
            ClientMessage::Move(index) => pair_value(
                WireValue::Unsigned(CLIENT_MOVE),
                pair_value(integer_value(index.x), integer_value(index.y)),
            ),
        }
    }
}

/// Puts the flag of the message type in front of the body.
pub fn envelope(message_type: MessageType, body: WireValue) -> (value: WireValue)
    ensures
        value@ == server_envelope(message_type, body@),
{
    let flag = message_type.message_flag();
    pair_value(WireValue::Unsigned(flag as u64), body)
}

impl UpdatePayload {
    /// The body of the update message.
    pub fn into_value(self) -> (value: WireValue)
        ensures
            value@ == self@.payload(),
    {
        let ghost model = self@;
        let size = self.map_size.to_value();
        let disappeared = array_value(id_values(&self.disappeared));
        let destroyed = array_value(id_values(&self.destroyed));
        let appeared = array_value(self.appeared);
        let updated = array_value(self.updated);
        let mut parts: Vec<WireValue> = Vec::new();
        parts.push(size);
        parts.push(appeared);
        parts.push(updated);
        parts.push(disappeared);
        parts.push(destroyed);
        proof {
            lemma_array_view(parts);
            assert(models(parts@) =~= model.payload()->Array_0);
        }
        WireValue::Array(parts)
    }
}

impl ServerMessage {
    /// The value that carries this message.
    pub fn into_value(self) -> (value: WireValue)
        ensures
            value@ == self@.envelope(),
    {
        match self {
            ServerMessage::Join(id) => envelope(MessageType::Join, WireValue::Unsigned(id)),
            ServerMessage::Update(update) => envelope(MessageType::Update, update.into_value()),
        }
    }
}

/// Reads a run of ids.
fn parse_ids(items: &Vec<WireValue>) -> (r: Option<Vec<EntityId>>)
    ensures
        match r {
            Some(ids) => ids_of(models(items@)) == Some(ids@),
            None => ids_of(models(items@)) is None,
        },
{
    let mut ids: Vec<EntityId> = Vec::new();
    let mut i: usize = 0;
    while i < items.len()
        invariant
            i <= items.len(),
            ids@.len() == i,
            forall|j: int|
                0 <= j < i ==> (#[trigger] models(items@)[j]).as_unsigned() == Some(ids@[j]),
        decreases items.len() - i,
    {
        match items[i].as_u64() {
            Some(id) => {
                assert(models(items@)[i as int] == items@[i as int]@);
                ids.push(id);
            },
            None => {
                assert(models(items@)[i as int] == items@[i as int]@);
                return None;
            },
        }
        i += 1;
    }
    assert(ids_of(models(items@))->0 =~= ids@);
    Some(ids)
}

/// Reads the size of the map.
fn parse_size(value: &WireValue) -> (r: Option<MapSize>)
    ensures
        r == size_of(value@),
{
    let pair = match value.as_array() {
        Some(pair) => pair,
        None => {
            return None;
        },
    };
    if pair.len() != 2 {
        return None;
    }
    match (pair[0].as_u64(), pair[1].as_u64()) {
        (Some(width), Some(height)) => Some(MapSize { width, height }),
        _ => None,
    }
}

/// A copy of each of a run of values.
fn duplicate_all(items: &Vec<WireValue>) -> (copies: Vec<WireValue>)
    ensures
        models(copies@) == models(items@),
{
    let mut copies: Vec<WireValue> = Vec::new();
    let mut i: usize = 0;
    while i < items.len()
        invariant
            i <= items.len(),
            copies@.len() == i,
            forall|j: int| 0 <= j < i ==> (#[trigger] copies@[j])@ == items@[j]@,
        decreases items.len() - i,
    {
        copies.push(items[i].duplicate());
        i += 1;
    }
    assert(models(copies@) =~= models(items@));
    copies
}

impl UpdatePayload {
    /// Reads the body of an update message; `None` where the value has not
    /// the five parts of one.
    pub fn from_value(body: &WireValue) -> (r: Option<UpdatePayload>)
        ensures
            match r {
                Some(update) => update_of(body@) == Some(update@),
                None => update_of(body@) is None,
            },
    {
        let parts = match body.as_array() {
            Some(parts) => parts,
            None => {
                return None;
            },
        };
        if parts.len() != 5 {
            return None;
        }
        let map_size = match parse_size(&parts[0]) {
            Some(map_size) => map_size,
            None => {
                return None;
            },
        };
        let appeared = match parts[1].as_array() {
            Some(appeared) => appeared,
            None => {
                return None;
            },
        };
        let updated = match parts[2].as_array() {
            Some(updated) => updated,
            None => {
                return None;
            },
        };
        let gone = match parts[3].as_array() {
            Some(gone) => gone,
            None => {
                return None;
            },
        };
        let dead = match parts[4].as_array() {
            Some(dead) => dead,
            None => {
                return None;
            },
        };
        let disappeared = match parse_ids(gone) {
            Some(disappeared) => disappeared,
            None => {
                return None;
            },
        };
        let destroyed = match parse_ids(dead) {
            Some(destroyed) => destroyed,
            None => {
                return None;
            },
        };
        Some(
            UpdatePayload {
                map_size,
                appeared: duplicate_all(appeared),
                updated: duplicate_all(updated),
                disappeared,
                destroyed,
            },
        )
    }
}

impl ServerMessage {
    /// Reads what a value from the server says.
    pub fn from_value(value: &WireValue) -> (r: Result<ServerMessage, MessageError>)
        ensures
            match r {
                Ok(message) => server_message_of(value@) == Ok::<ServerMessageModel, MessageError>(
                    message@,
                ),
                Err(error) => server_message_of(value@) == Err::<ServerMessageModel, MessageError>(
                    error,
                ),
            },
    {
        let items = match value.as_array() {
            Some(items) => items,
            None => {
                return Err(MessageError::Malformed);
            },
        };
        if items.len() != 2 {
            return Err(MessageError::MissingData);
        }
        match items[0].as_u64() {
            None => Err(MessageError::MissingData),
            Some(flag) => if flag == 0 {
                match items[1].as_u64() {
                    Some(id) => Ok(ServerMessage::Join(id)),
                    None => Err(MessageError::MissingData),
                }
            } else if flag == 1 {
                match UpdatePayload::from_value(&items[1]) {
                    Some(update) => Ok(ServerMessage::Update(update)),
                    None => Err(MessageError::MissingData),
                }
            } else {
                Err(MessageError::EventType)
            },
        }
    }
}

} // verus!
