use world_sync::map::MapIndex;
use world_sync::message::{ClientMessage, MessageError, MessageType};
use world_sync::map::MapSize;
use world_sync::session::{
    join_frame, message_frame, update_frame, Client, CloseCode, CloseNotice, Closing, Frame,
    Reaction,
};
use world_sync::wire::envelope::UpdatePayload;
use world_sync::wire::value::WireValue;

fn join_alice() -> Vec<u8> {
    vec![0x92, 0x00, 0xa5, b'a', b'l', b'i', b'c', b'e']
}

#[test]
fn join_is_forwarded_once() {
    let client = Client::new();
    let reaction = client.on_message(&Frame::Binary(join_alice()));
    assert_eq!(reaction, Reaction::Forward(ClientMessage::Join("alice".to_string())));
}

#[test]
fn move_is_forwarded_with_its_square() {
    let client = Client::new();
    // [1, [3, -2]]
    let frame = Frame::Binary(vec![0x92, 0x01, 0x92, 0x03, 0xfe]);
    assert_eq!(
        client.on_message(&frame),
        Reaction::Forward(ClientMessage::Move(MapIndex::new(3, -2)))
    );
}

#[test]
fn move_with_one_coordinate_misses_data() {
    let client = Client::new();
    // [1, [3]]
    let frame = Frame::Binary(vec![0x92, 0x01, 0x91, 0x03]);
    assert_eq!(client.on_message(&frame), Reaction::Drop(MessageError::MissingData));
    assert_eq!(client.parse_message(&frame), Err(MessageError::MissingData));
}

#[test]
fn text_frames_are_malformed() {
    let client = Client::new();
    let frame = Frame::Text("[0, \"alice\"]".to_string());
    assert_eq!(client.on_message(&frame), Reaction::Drop(MessageError::Malformed));
}

#[test]
fn bytes_that_decode_to_nothing_are_malformed() {
    let client = Client::new();
    assert_eq!(client.parse_message(&Frame::Binary(vec![])), Err(MessageError::Malformed));
    // an array of two with one element missing
    assert_eq!(
        client.parse_message(&Frame::Binary(vec![0x92, 0x00])),
        Err(MessageError::Malformed)
    );
    // a string of five bytes with two given
    assert_eq!(
        client.parse_message(&Frame::Binary(vec![0xa5, b'a', b'l'])),
        Err(MessageError::Malformed)
    );
}

#[test]
fn a_value_that_is_no_array_is_malformed() {
    let client = Client::new();
    assert_eq!(client.parse_message(&Frame::Binary(vec![0x05])), Err(MessageError::Malformed));
    assert_eq!(client.parse_value(&WireValue::Nil), Err(MessageError::Malformed));
    assert_eq!(
        client.parse_value(&WireValue::String("join".to_string())),
        Err(MessageError::Malformed)
    );
}

#[test]
fn an_array_of_the_wrong_length_misses_data() {
    let client = Client::new();
    assert_eq!(client.parse_value(&WireValue::Array(vec![])), Err(MessageError::MissingData));
    assert_eq!(
        client.parse_value(&WireValue::Array(vec![WireValue::Unsigned(0)])),
        Err(MessageError::MissingData)
    );
    assert_eq!(
        client.parse_value(&WireValue::Array(vec![
            WireValue::Unsigned(0),
            WireValue::String("a".to_string()),
            WireValue::Nil,
        ])),
        Err(MessageError::MissingData)
    );
}

#[test]
fn a_type_that_is_no_unsigned_integer_misses_data() {
    let client = Client::new();
    assert_eq!(
        client.parse_value(&WireValue::Array(vec![
            WireValue::String("0".to_string()),
            WireValue::String("a".to_string()),
        ])),
        Err(MessageError::MissingData)
    );
    assert_eq!(
        client.parse_value(&WireValue::Array(vec![
            WireValue::Signed(-1),
            WireValue::String("a".to_string()),
        ])),
        Err(MessageError::MissingData)
    );
}

#[test]
fn an_unknown_type_is_an_event_type_error() {
    let client = Client::new();
    assert_eq!(
        client.parse_value(&WireValue::Array(vec![WireValue::Unsigned(2), WireValue::Nil])),
        Err(MessageError::EventType)
    );
    assert_eq!(
        client.parse_message(&Frame::Binary(vec![0x92, 0x07, 0xc0])),
        Err(MessageError::EventType)
    );
}

#[test]
fn a_type_held_as_signed_counts_by_its_number() {
    let client = Client::new();
    assert_eq!(
        client.parse_value(&WireValue::Array(vec![
            WireValue::Signed(0),
            WireValue::String("bob".to_string()),
        ])),
        Ok(ClientMessage::Join("bob".to_string()))
    );
}

#[test]
fn join_wants_a_string() {
    let client = Client::new();
    assert_eq!(client.join_game(&WireValue::Unsigned(5)), Err(MessageError::MissingData));
    assert_eq!(
        client.join_game(&WireValue::Binary(vec![b'a'])),
        Err(MessageError::MissingData)
    );
    assert_eq!(
        client.join_game(&WireValue::String(String::new())),
        Ok(ClientMessage::Join(String::new()))
    );
}

#[test]
fn a_name_that_is_not_utf8_misses_data() {
    let client = Client::new();
    // [0, str of one byte 0xff]
    let frame = Frame::Binary(vec![0x92, 0x00, 0xa1, 0xff]);
    assert_eq!(client.parse_message(&frame), Err(MessageError::MissingData));
}

#[test]
fn move_wants_two_integers_that_fit() {
    let client = Client::new();
    assert_eq!(client.move_player(&WireValue::Nil), Err(MessageError::MissingData));
    assert_eq!(
        client.move_player(&WireValue::Array(vec![
            WireValue::Unsigned(1),
            WireValue::Unsigned(2),
            WireValue::Unsigned(3),
        ])),
        Err(MessageError::MissingData)
    );
    assert_eq!(
        client.move_player(&WireValue::Array(vec![
            WireValue::Unsigned(1),
            WireValue::String("2".to_string()),
        ])),
        Err(MessageError::MissingData)
    );
    assert_eq!(
        client.move_player(&WireValue::Array(vec![
            WireValue::Unsigned(u64::MAX),
            WireValue::Unsigned(0),
        ])),
        Err(MessageError::MissingData)
    );
    assert_eq!(
        client.move_player(&WireValue::Array(vec![
            WireValue::Unsigned(i64::MAX as u64),
            WireValue::Signed(i64::MIN),
        ])),
        Ok(ClientMessage::Move(MapIndex::new(i64::MAX, i64::MIN)))
    );
}

#[test]
fn close_by_two_ways_leaves_once() {
    let mut client = Client::new();
    client.on_open();
    assert!(client.is_open());
    let (notice, first) = client.on_close(CloseCode::Normal);
    assert_eq!(notice, CloseNotice::Done);
    assert_eq!(first, Closing { leave: true, close_socket: true });
    assert!(!client.is_open());
    let second = client.on_error();
    assert_eq!(second, Closing { leave: false, close_socket: false });
    let third = client.close();
    assert_eq!(third, Closing { leave: false, close_socket: false });
}

#[test]
fn an_error_first_and_a_close_after_leave_once() {
    let mut client = Client::new();
    client.on_open();
    assert_eq!(client.on_error(), Closing { leave: true, close_socket: true });
    let (notice, closing) = client.on_close(CloseCode::Other);
    assert_eq!(notice, CloseNotice::Failed);
    assert_eq!(closing, Closing { leave: false, close_socket: false });
}

#[test]
fn a_session_that_never_opened_still_leaves_once() {
    let mut client = Client::new();
    assert!(!client.is_open());
    assert_eq!(client.close(), Closing { leave: true, close_socket: true });
    assert_eq!(client.close(), Closing { leave: false, close_socket: false });
    client.on_open();
    assert!(!client.is_open());
}

#[test]
fn close_codes_and_their_notices() {
    assert_eq!(Client::new().on_close(CloseCode::Normal).0, CloseNotice::Done);
    assert_eq!(Client::new().on_close(CloseCode::Away).0, CloseNotice::Leaving);
    assert_eq!(Client::new().on_close(CloseCode::Other).0, CloseNotice::Failed);
}

#[test]
fn a_bad_frame_leaves_the_session_open() {
    let mut client = Client::new();
    client.on_open();
    assert_eq!(client.on_message(&Frame::Binary(vec![0xc1, 0xc1])), Reaction::Drop(MessageError::Malformed));
    assert!(client.is_open());
    assert_eq!(
        client.on_message(&Frame::Binary(join_alice())),
        Reaction::Forward(ClientMessage::Join("alice".to_string()))
    );
}

#[test]
fn frame_of_a_join_acknowledgement() {
    assert_eq!(
        message_frame(MessageType::Join, WireValue::Unsigned(7)),
        Some(vec![0x92, 0x00, 0x07])
    );
    assert_eq!(
        message_frame(MessageType::Update, WireValue::Array(vec![])),
        Some(vec![0x92, 0x01, 0x90])
    );
}

#[test]
fn frame_that_tells_the_player_its_id() {
    assert_eq!(join_frame(300), Some(vec![0x92, 0x00, 0xcd, 0x01, 0x2c]));
    assert_eq!(join_frame(0), Some(vec![0x92, 0x00, 0x00]));
}

#[test]
fn frame_of_an_update() {
    let update = UpdatePayload {
        map_size: MapSize { width: 2, height: 3 },
        appeared: vec![WireValue::Array(vec![WireValue::Unsigned(8), WireValue::Nil])],
        updated: vec![],
        disappeared: vec![4],
        destroyed: vec![5, 6],
    };
    assert_eq!(
        update_frame(update),
        Some(vec![
            0x92, 0x01, 0x95, 0x92, 0x02, 0x03, 0x91, 0x92, 0x08, 0xc0, 0x90, 0x91, 0x04, 0x92,
            0x05, 0x06,
        ])
    );
}

#[test]
fn a_body_that_nests_too_deep_gives_no_frame() {
    let mut body = WireValue::Nil;
    for _ in 0..256 {
        body = WireValue::Array(vec![body]);
    }
    assert_eq!(message_frame(MessageType::Update, body), None);
}
