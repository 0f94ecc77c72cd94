use minigolf_session::codec::{decode_text, encode_text, trim_text, split_three, DecodeError, Message};
use minigolf_session::envelope::{decode_message, encode_message};

fn round_trip(text: &str) {
    let m = decode_text(text).expect("well-formed message");
    assert_eq!(encode_text(&m), text);
}

#[test]
fn round_trip_every_tag() {
    round_trip("(InitPlayerConnection, (abc-123, alice, alice@example.com))");
    round_trip("(abc-123, InitPlayerConnection(abc-123, alice, alice@example.com))");
    round_trip("(PacketAllStates, ({\"player_id\":\"ada\",\"state_game\":\"Online\"}))");
    round_trip("(PacketHeartBeat, ({\"player_id\":\"ada\"}))");
    round_trip("(REQUEST_FULL_MAP_SETS, ())");
    round_trip("(ada, RunTrigger(game_handler_game_start))");
    round_trip("(client-1, SyncExistingPlayerId(host-1))");
    round_trip("StateGameConnection::Online");
}

#[test]
fn decodes_tagged_init() {
    let m = decode_text("(abc-123, InitPlayerConnection(abc-123, alice, alice@example.com))").unwrap();
    assert_eq!(
        m,
        Message::InitPlayerConnection {
            tag: Some(String::from("abc-123")),
            id: String::from("abc-123"),
            username: String::from("alice"),
            email: String::from("alice@example.com"),
        }
    );
}

#[test]
fn decodes_bracket_init_and_trims_fields() {
    let m = decode_text("(InitPlayerConnection,   ( id-1 ,  bob , bob@example.com ))").unwrap();
    assert_eq!(
        m,
        Message::InitPlayerConnection {
            tag: None,
            id: String::from("id-1"),
            username: String::from("bob"),
            email: String::from("bob@example.com"),
        }
    );
}

#[test]
fn last_init_field_keeps_separators() {
    let m = decode_text("(InitPlayerConnection, (a, b, c, d))").unwrap();
    assert_eq!(
        m,
        Message::InitPlayerConnection {
            tag: None,
            id: String::from("a"),
            username: String::from("b"),
            email: String::from("c, d"),
        }
    );
}

#[test]
fn decode_errors() {
    assert_eq!(decode_text("hello"), Err(DecodeError::Malformed));
    assert_eq!(decode_text(""), Err(DecodeError::Malformed));
    assert_eq!(decode_text("(Nope, (x))"), Err(DecodeError::UnknownCommand));
    assert_eq!(decode_text("(ada, Dance(x))"), Err(DecodeError::UnknownCommand));
    assert_eq!(decode_text("(InitPlayerConnection, (a, b))"), Err(DecodeError::FieldCount));
    assert_eq!(decode_text("(REQUEST_FULL_MAP_SETS, (x))"), Err(DecodeError::FieldCount));
    assert_eq!(decode_text("(PacketHeartBeat, (a\nb))"), Err(DecodeError::Malformed));
    assert_eq!(decode_message(&[0xc1]), Err(DecodeError::Unreadable));
}

#[test]
fn trims_unicode_white_space() {
    assert_eq!(trim_text("\u{3000} x y\t\n"), "x y");
    assert_eq!(trim_text("   "), "");
}

#[test]
fn splits_on_first_two_separators() {
    assert_eq!(
        split_three("a, b, c, d"),
        Some((String::from("a"), String::from("b"), String::from("c, d")))
    );
    assert_eq!(split_three("a, b"), None);
}

#[test]
fn envelope_round_trip() {
    let m = Message::PacketHeartBeat { payload: String::from("{\"player_id\":\"ada\"}") };
    let bytes = encode_message(&m).unwrap();
    let inner: String = rmp_serde::from_slice(&bytes).unwrap();
    assert_eq!(inner, "(PacketHeartBeat, ({\"player_id\":\"ada\"}))");
    assert_eq!(decode_message(&bytes), Ok(m));
}

#[test]
fn envelope_from_peer() {
    let bytes = rmp_serde::to_vec("(REQUEST_FULL_MAP_SETS, ())").unwrap();
    assert_eq!(decode_message(&bytes), Ok(Message::RequestFullMapSets));
}

#[test]
fn round_trip_tags_with_commas() {
    round_trip("(a,b, RunTrigger(game_handler_game_start))");
    round_trip("(x,y z, SyncExistingPlayerId(host-1))");
    assert_eq!(decode_text("(x,(y, SyncExistingPlayerId(host-1))"), Err(DecodeError::UnknownCommand));
    round_trip("(InitPlayerConnection, (id,1, bob,jr, bob@example.com))");
}

#[test]
fn plain_text_and_envelope_decode_alike() {
    let text = "(abc-123, InitPlayerConnection(abc-123, alice, alice@example.com))";
    let sealed = rmp_serde::to_vec(text).unwrap();
    assert_eq!(decode_message(text.as_bytes()), decode_message(&sealed));
    assert_eq!(decode_message(text.as_bytes()), decode_text(text));
    assert_eq!(decode_message(b"junk"), Err(DecodeError::Malformed));
    assert_eq!(decode_message(&[0xff, 0xfe]), Err(DecodeError::Unreadable));
    assert_eq!(decode_message(&[0xa3, b'a']), Err(DecodeError::Unreadable));
}

#[test]
fn encode_message_seals_every_message() {
    let m = Message::RunTrigger { player_id: String::from("ada"), trigger_name: String::from("t") };
    let bytes = encode_message(&m).unwrap();
    assert_eq!(bytes[0], 0xa0 + "(ada, RunTrigger(t))".len() as u8);
    assert_eq!(decode_message(&bytes), Ok(m));
}
