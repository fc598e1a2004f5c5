use wshub::codec::{decode_envelope, encode_envelope, DecodeError};
use wshub::json::{json_clone, json_to_text, obj_get, str_eq, JsonValue};
use wshub::protocol::{
    connection_id_text, parse_u128_dec, ConnectionDetails, ConnectionStats, ConnectionSummary,
    DataUpdatePayload, DebugPayload, ErrorPayload, NavigationPayload, SubscribePayload,
    SubscriptionTopic, UnsubscribePayload, WsMessage,
};

fn obj(members: Vec<(&str, JsonValue)>) -> JsonValue {
    JsonValue::Obj(
        members
            .into_iter()
            .map(|(k, v)| (k.to_string(), v))
            .collect(),
    )
}

fn s(v: &str) -> JsonValue {
    JsonValue::Str(v.to_string())
}

#[test]
fn ping_prints_exactly() {
    let text = json_to_text(&encode_envelope(&WsMessage::Ping));
    assert_eq!(text, "{\"type\":\"Ping\"}");
}

#[test]
fn pong_prints_exactly() {
    let text = json_to_text(&encode_envelope(&WsMessage::Pong));
    assert_eq!(text, "{\"type\":\"Pong\"}");
}

#[test]
fn printer_escapes_strings() {
    let v = JsonValue::Str("a\"b\\c\nd".to_string());
    assert_eq!(json_to_text(&v), "\"a\\\"b\\\\c\\nd\"");
}

#[test]
fn printer_matches_outside_parser() {
    let v = obj(vec![
        ("x", JsonValue::Int(-42)),
        ("y", JsonValue::Arr(vec![JsonValue::Null, JsonValue::Bool(true), s("hi")])),
    ]);
    let text = json_to_text(&v);
    let parsed: serde_json::Value = serde_json::from_str(&text).expect("printer must emit valid JSON");
    assert_eq!(parsed["x"], serde_json::Value::from(-42i64));
    assert_eq!(parsed["y"][1], serde_json::Value::Bool(true));
    assert_eq!(parsed["y"][2], serde_json::Value::from("hi"));
}

#[test]
fn round_trip_ping_pong_requests() {
    for msg in [
        WsMessage::Ping,
        WsMessage::Pong,
        WsMessage::RequestConnectionInfo,
        WsMessage::RequestActiveConnections,
    ] {
        let decoded = decode_envelope(&encode_envelope(&msg)).expect("must decode");
        assert_eq!(json_to_text(&encode_envelope(&decoded)), json_to_text(&encode_envelope(&msg)));
    }
}

#[test]
fn round_trip_connection_info() {
    let msg = WsMessage::ConnectionInfo {
        payload: ConnectionDetails {
            connection_id: 12345678901234567890123456789u128,
            ip: "10.0.0.7".to_string(),
            connected_at: 1700000000123,
            user_agent: Some("probe".to_string()),
        },
    };
    match decode_envelope(&encode_envelope(&msg)).expect("must decode") {
        WsMessage::ConnectionInfo { payload } => {
            assert_eq!(payload.connection_id, 12345678901234567890123456789u128);
            assert_eq!(payload.ip, "10.0.0.7");
            assert_eq!(payload.connected_at, 1700000000123);
            assert_eq!(payload.user_agent.as_deref(), Some("probe"));
        }
        other => panic!("wrong variant: {:?}", json_to_text(&encode_envelope(&other))),
    }
}

#[test]
fn round_trip_subscribe_unsubscribe() {
    let msg = WsMessage::Subscribe {
        payload: SubscribePayload { topics: vec!["debug".to_string(), "all".to_string()] },
    };
    match decode_envelope(&encode_envelope(&msg)).unwrap() {
        WsMessage::Subscribe { payload } => assert_eq!(payload.topics, vec!["debug", "all"]),
        _ => panic!("wrong variant"),
    }
    let msg = WsMessage::Unsubscribe {
        payload: UnsubscribePayload { topics: vec!["metrics".to_string()] },
    };
    match decode_envelope(&encode_envelope(&msg)).unwrap() {
        WsMessage::Unsubscribe { payload } => assert_eq!(payload.topics, vec!["metrics"]),
        _ => panic!("wrong variant"),
    }
}

#[test]
fn round_trip_active_connections() {
    let msg = WsMessage::ActiveConnections {
        payload: ConnectionStats {
            count: 2,
            connections: vec![
                ConnectionSummary {
                    id: 7,
                    ip: "a".to_string(),
                    connected_duration: 30,
                    message_count: 4,
                    bytes_sent: 100,
                    bytes_received: 50,
                },
                ConnectionSummary {
                    id: 9,
                    ip: "b".to_string(),
                    connected_duration: 0,
                    message_count: 0,
                    bytes_sent: 0,
                    bytes_received: 0,
                },
            ],
        },
    };
    match decode_envelope(&encode_envelope(&msg)).unwrap() {
        WsMessage::ActiveConnections { payload } => {
            assert_eq!(payload.count, 2);
            assert_eq!(payload.connections.len(), 2);
            assert_eq!(payload.connections[0].id, 7);
            assert_eq!(payload.connections[0].bytes_sent, 100);
            assert_eq!(payload.connections[1].ip, "b");
        }
        _ => panic!("wrong variant"),
    }
}

#[test]
fn round_trip_navigation_data_debug_error_custom() {
    let msg = WsMessage::NavigationUpdated {
        payload: NavigationPayload { schema: "nav".to_string(), data: JsonValue::Int(3) },
    };
    match decode_envelope(&encode_envelope(&msg)).unwrap() {
        WsMessage::NavigationUpdated { payload } => assert_eq!(payload.schema, "nav"),
        _ => panic!("wrong variant"),
    }
    let msg = WsMessage::DataUpdate {
        payload: DataUpdatePayload {
            source: "inv".to_string(),
            data: JsonValue::Bool(false),
            timestamp: 55,
        },
    };
    match decode_envelope(&encode_envelope(&msg)).unwrap() {
        WsMessage::DataUpdate { payload } => {
            assert_eq!(payload.source, "inv");
            assert_eq!(payload.timestamp, 55);
        }
        _ => panic!("wrong variant"),
    }
    let msg = WsMessage::Debug {
        payload: DebugPayload {
            level: "info".to_string(),
            component: "X".to_string(),
            message: "msg".to_string(),
            data: Some(JsonValue::Int(1)),
            timestamp: 9,
        },
    };
    match decode_envelope(&encode_envelope(&msg)).unwrap() {
        WsMessage::Debug { payload } => {
            assert_eq!(payload.component, "X");
            assert!(payload.data.is_some());
        }
        _ => panic!("wrong variant"),
    }
    let msg = WsMessage::Error {
        payload: ErrorPayload {
            message: "boom".to_string(),
            code: Some(404),
            details: None,
        },
    };
    match decode_envelope(&encode_envelope(&msg)).unwrap() {
        WsMessage::Error { payload } => {
            assert_eq!(payload.message, "boom");
            assert_eq!(payload.code, Some(404));
            assert_eq!(payload.details, None);
        }
        _ => panic!("wrong variant"),
    }
    let msg = WsMessage::Custom {
        event: "hello".to_string(),
        payload: obj(vec![("k", s("v"))]),
    };
    match decode_envelope(&encode_envelope(&msg)).unwrap() {
        WsMessage::Custom { event, payload } => {
            assert_eq!(event, "hello");
            match payload {
                JsonValue::Obj(members) => {
                    assert_eq!(members.len(), 1);
                    assert_eq!(members[0].0, "k");
                }
                _ => panic!("payload shape lost"),
            }
        }
        _ => panic!("wrong variant"),
    }
}

#[test]
fn unknown_tag_and_bad_shape_are_told_apart() {
    let unknown = obj(vec![("type", s("NO_SUCH_THING"))]);
    assert!(matches!(decode_envelope(&unknown), Err(DecodeError::UnknownTag)));
    let not_an_object = JsonValue::Int(3);
    assert!(matches!(decode_envelope(&not_an_object), Err(DecodeError::BadShape)));
    let no_tag = obj(vec![("payload", JsonValue::Null)]);
    assert!(matches!(decode_envelope(&no_tag), Err(DecodeError::BadShape)));
    let bad_payload = obj(vec![("type", s("Subscribe")), ("payload", JsonValue::Int(1))]);
    assert!(matches!(decode_envelope(&bad_payload), Err(DecodeError::BadShape)));
}

#[test]
fn decode_accepts_any_member_order() {
    let v = obj(vec![
        ("event", s("e1")),
        ("payload", JsonValue::Null),
        ("type", s("Custom")),
    ]);
    match decode_envelope(&v).unwrap() {
        WsMessage::Custom { event, .. } => assert_eq!(event, "e1"),
        _ => panic!("wrong variant"),
    }
}

#[test]
fn decimal_id_text_round_trips() {
    for n in [0u128, 9, 10, 12345, u128::MAX] {
        let text = connection_id_text(n);
        assert_eq!(parse_u128_dec(&text), Some(n));
    }
    assert_eq!(connection_id_text(0), "0");
    assert_eq!(connection_id_text(1234567890), "1234567890");
    assert_eq!(parse_u128_dec(""), None);
    assert_eq!(parse_u128_dec("12a"), None);
    // One more than the largest 128-bit value.
    assert_eq!(parse_u128_dec("340282366920938463463374607431768211456"), None);
}

#[test]
fn topics_parse_case_insensitively() {
    assert!(matches!(SubscriptionTopic::parse("NAVIGATION"), SubscriptionTopic::Navigation));
    assert!(matches!(SubscriptionTopic::parse("filesystem"), SubscriptionTopic::FileSystem));
    assert!(matches!(SubscriptionTopic::parse("Debug"), SubscriptionTopic::Debug));
    assert!(matches!(SubscriptionTopic::parse("metrics"), SubscriptionTopic::Metrics));
    assert!(matches!(SubscriptionTopic::parse("all"), SubscriptionTopic::All));
    assert!(matches!(SubscriptionTopic::parse("anything else"), SubscriptionTopic::All));
    match SubscriptionTopic::parse("data:Inventory") {
        SubscriptionTopic::DataUpdates(src) => assert_eq!(src, "inventory"),
        _ => panic!("wrong topic"),
    }
    match SubscriptionTopic::parse("direct:42") {
        SubscriptionTopic::Direct(id) => assert_eq!(id, 42),
        _ => panic!("wrong topic"),
    }
    assert!(matches!(SubscriptionTopic::parse("direct:notanumber"), SubscriptionTopic::All));
}

#[test]
fn topic_strings_round_trip() {
    for t in [
        SubscriptionTopic::Navigation,
        SubscriptionTopic::FileSystem,
        SubscriptionTopic::Debug,
        SubscriptionTopic::Metrics,
        SubscriptionTopic::All,
        SubscriptionTopic::DataUpdates("x".to_string()),
        SubscriptionTopic::Direct(987654321),
    ] {
        let name = t.topic_string();
        let back = SubscriptionTopic::parse(&name);
        assert_eq!(back.topic_string(), name);
    }
    assert_eq!(SubscriptionTopic::All.topic_string(), "all");
    assert_eq!(SubscriptionTopic::Direct(42).topic_string(), "direct:42");
    assert_eq!(SubscriptionTopic::DataUpdates("inv".to_string()).topic_string(), "data:inv");
}

#[test]
fn obj_get_finds_first_occurrence() {
    let v = vec![
        ("a".to_string(), JsonValue::Int(1)),
        ("b".to_string(), JsonValue::Int(2)),
        ("a".to_string(), JsonValue::Int(3)),
    ];
    match obj_get(&v, "a") {
        Some(JsonValue::Int(n)) => assert_eq!(*n, 1),
        _ => panic!("lookup failed"),
    }
    assert!(obj_get(&v, "c").is_none());
    assert!(str_eq("same", "same"));
    assert!(!str_eq("same", "same "));
    let copy = json_clone(&JsonValue::Arr(vec![JsonValue::Int(5)]));
    assert_eq!(json_to_text(&copy), "[5]");
}
