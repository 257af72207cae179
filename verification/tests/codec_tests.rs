//! Round-trip and decoding tests for the wire-envelope codec.

use winccua_graphql_client::codec::{decode_frame, encode_frame, ProtocolMessage};
use winccua_graphql_client::json::JsonValue;
use winccua_graphql_client::manager::init_frame;

fn next_msg() -> ProtocolMessage {
    ProtocolMessage::Next {
        id: "sub_3".to_string(),
        payload: JsonValue::Obj(vec![
            ("a".to_string(), JsonValue::Num("1".to_string())),
            ("b".to_string(), JsonValue::Arr(vec![JsonValue::Bool(true), JsonValue::Null])),
        ]),
    }
}

#[test]
fn round_trip_next() {
    let text = encode_frame(next_msg());
    assert_eq!(decode_frame(&text), Some(next_msg()));
}

#[test]
fn round_trip_subscribe() {
    let make = || ProtocolMessage::Subscribe {
        id: "sub_0".to_string(),
        query: "subscription { tagValues { name } }".to_string(),
        variables: vec![("names".to_string(), JsonValue::Arr(vec![JsonValue::Str(
            "System::Tag1".to_string(),
        )]))],
    };
    let text = encode_frame(make());
    assert_eq!(decode_frame(&text), Some(make()));
}

#[test]
fn round_trip_handshake_frames() {
    let text = encode_frame(init_frame("tok1"));
    let decoded = decode_frame(&text);
    match decoded {
        Some(ProtocolMessage::ConnectionInit { payload }) => {
            assert_eq!(payload.len(), 1);
            assert_eq!(payload[0].0, "Authorization");
            assert_eq!(payload[0].1, JsonValue::Str("Bearer tok1".to_string()));
        },
        other => panic!("expected a connection_init frame, got {:?}", other),
    }

    let text = encode_frame(ProtocolMessage::ConnectionAck);
    assert_eq!(decode_frame(&text), Some(ProtocolMessage::ConnectionAck));

    let text = encode_frame(ProtocolMessage::Complete { id: "sub_12".to_string() });
    assert_eq!(decode_frame(&text), Some(ProtocolMessage::Complete { id: "sub_12".to_string() }));

    let text = encode_frame(ProtocolMessage::Pong);
    assert_eq!(decode_frame(&text), Some(ProtocolMessage::Pong));

    let make_err = || ProtocolMessage::Error {
        id: "sub_1".to_string(),
        payload: JsonValue::Str("boom".to_string()),
    };
    let text = encode_frame(make_err());
    assert_eq!(decode_frame(&text), Some(make_err()));

    let make_conn_err = || ProtocolMessage::ConnectionError {
        payload: JsonValue::Str("denied".to_string()),
    };
    let text = encode_frame(make_conn_err());
    assert_eq!(decode_frame(&text), Some(make_conn_err()));
}

#[test]
fn init_frame_without_token_has_empty_payload() {
    match init_frame("") {
        ProtocolMessage::ConnectionInit { payload } => assert!(payload.is_empty()),
        other => panic!("expected a connection_init frame, got {:?}", other),
    }
}

#[test]
fn decode_accepts_any_field_order() {
    let decoded = decode_frame(r#"{"id":"sub_1","payload":{"v":2},"type":"next"}"#);
    match decoded {
        Some(ProtocolMessage::Next { id, payload }) => {
            assert_eq!(id, "sub_1");
            assert_eq!(
                payload,
                JsonValue::Obj(vec![("v".to_string(), JsonValue::Num("2".to_string()))]),
            );
        },
        other => panic!("expected a next frame, got {:?}", other),
    }
}

#[test]
fn decode_rejects_what_it_cannot_read() {
    assert_eq!(decode_frame(""), None);
    assert_eq!(decode_frame("{"), None);
    assert_eq!(decode_frame("[1,2]"), None);
    assert_eq!(decode_frame(r#"{"type":42}"#), None);
    assert_eq!(decode_frame(r#"{"type":"next","id":"sub_1"}"#), None);
    assert_eq!(decode_frame(r#"{"type":"next","payload":1}"#), None);
    assert_eq!(decode_frame(r#"{"type":"complete"}"#), None);
    assert_eq!(decode_frame(r#"{"type":"no_such_frame"}"#), None);
}

#[test]
fn encoded_text_is_real_json() {
    let text = encode_frame(next_msg());
    assert!(text.contains("\"sub_3\""));
    assert!(text.contains("\"next\""));
    assert!(text.starts_with('{') && text.ends_with('}'));
}
