use base64::Engine;
use chron::json::Json;
use chron::models::EntityKind;
use chron::pusher::{
    default_channels, game_feed_channel, is_internal_event, payload_source, pusher_action, subscribe_command,
    PayloadError, PayloadSource, PusherAction, PusherError, PusherMessage, SerializedPusherMessage, Subscriptions,
};
use std::io::Write;

const GAME: u128 = 0x0123_4567_89ab_cdef_0011_2233_4455_6677;

fn to_json(v: &serde_json::Value) -> Json {
    match v {
        serde_json::Value::Null => Json::Null,
        serde_json::Value::Bool(b) => Json::Bool(*b),
        serde_json::Value::Number(n) => Json::Number(n.to_string()),
        serde_json::Value::String(s) => Json::String(s.clone()),
        serde_json::Value::Array(a) => Json::Array(a.iter().map(to_json).collect()),
        serde_json::Value::Object(o) => Json::Object(o.iter().map(|(k, v)| (k.clone(), to_json(v))).collect()),
    }
}

fn from_json(j: &Json) -> serde_json::Value {
    match j {
        Json::Null => serde_json::Value::Null,
        Json::Bool(b) => serde_json::Value::Bool(*b),
        Json::Number(n) => serde_json::Value::Number(n.parse().unwrap()),
        Json::String(s) => serde_json::Value::String(s.clone()),
        Json::Array(a) => serde_json::Value::Array(a.iter().map(from_json).collect()),
        Json::Object(o) => serde_json::Value::Object(o.iter().map(|(k, v)| (k.clone(), from_json(v))).collect()),
    }
}

fn parse(text: &str) -> Json {
    to_json(&serde_json::from_str::<serde_json::Value>(text).unwrap())
}

fn gzip(data: &[u8]) -> Vec<u8> {
    let mut enc = flate2::write::GzEncoder::new(Vec::new(), flate2::Compression::default());
    enc.write_all(data).unwrap();
    enc.finish().unwrap()
}

fn feed_channel_text() -> String {
    format!("game-feed-{}", uuid::Uuid::from_u128(GAME))
}

#[test]
fn internal_events_are_recognised() {
    assert!(is_internal_event("pusher_internal:subscription_succeeded"));
    assert!(!is_internal_event("pusher:connection_established"));
    assert!(!is_internal_event("sim-data"));
    assert!(!is_internal_event(""));
}

#[test]
fn default_channel_list() {
    assert_eq!(default_channels(), vec!["ticker".to_string(), "sim-data".to_string(), "temporal".to_string()]);
}

#[test]
fn feed_channel_names_the_game() {
    assert_eq!(game_feed_channel(GAME), "game-feed-01234567-89ab-cdef-0011-223344556677");
    assert_eq!(game_feed_channel(GAME), feed_channel_text());
}

#[test]
fn subscribe_command_shape() {
    let cmd = from_json(&subscribe_command("temporal".to_string()));
    let expected: serde_json::Value = serde_json::from_str(
        r#"{"event": "pusher:subscribe", "data": {"auth": "", "channel": "temporal"}}"#,
    )
    .unwrap();
    assert_eq!(cmd, expected);
}

#[test]
fn subscriptions_record_each_channel_once() {
    let mut subs = Subscriptions::new();
    assert!(subs.insert("ticker"));
    assert!(subs.insert("sim-data"));
    assert!(!subs.insert("ticker"));
    let mut all = subs.to_vec();
    all.sort();
    assert_eq!(all, vec!["sim-data".to_string(), "ticker".to_string()]);
}

#[test]
fn message_without_channel_gets_empty_one() {
    let msg = SerializedPusherMessage { channel: None, event: "ping".to_string(), data: "{}".to_string() };
    let m = PusherMessage::from_serialized(5, msg, None);
    assert_eq!(m.timestamp, 5);
    assert_eq!(m.channel, "");
    assert_eq!(m.event, "ping");
    assert_eq!(m.data, "{}");
    assert!(m.payload.is_none());
    let msg = SerializedPusherMessage { channel: Some("ticker".to_string()), event: "e".to_string(), data: String::new() };
    assert_eq!(PusherMessage::from_serialized(6, msg, Some(Json::Null)).channel, "ticker");
}

#[test]
fn payload_without_message_is_refused() {
    assert!(matches!(payload_source(None), Err(PayloadError::NotWrapped)));
}

#[test]
fn payload_gzip_in_base64_is_decompressed() {
    let text = br#"{"sim": {"day": 3}}"#;
    let wrapped = base64::engine::general_purpose::STANDARD.encode(gzip(text));
    match payload_source(Some(&wrapped)) {
        Ok(PayloadSource::Compressed(bytes)) => assert_eq!(bytes, text.to_vec()),
        _ => panic!("expected a compressed payload"),
    }
}

#[test]
fn payload_plain_json_is_not_base64() {
    assert!(matches!(payload_source(Some(r#"{"a": 1}"#)), Ok(PayloadSource::Plain)));
    assert!(matches!(payload_source(Some("hello")), Ok(PayloadSource::Plain)));
}

#[test]
fn payload_base64_of_non_gzip_is_refused() {
    let wrapped = base64::engine::general_purpose::STANDARD.encode(b"hello world");
    assert!(matches!(payload_source(Some(&wrapped)), Err(PayloadError::BadCompression)));
}

#[test]
fn action_without_payload_is_nothing() {
    assert!(matches!(pusher_action(1, "sim-data", "sim-data", None), Ok(PusherAction::Nothing)));
    assert!(matches!(pusher_action(1, &feed_channel_text(), "game-data", None), Ok(PusherAction::Nothing)));
}

#[test]
fn action_sim_data_updates_sim() {
    match pusher_action(1, "sim-data", "sim-data", Some(parse(r#"{"day": 4}"#))) {
        Ok(PusherAction::UpdateSim(p)) => assert_eq!(from_json(&p), from_json(&parse(r#"{"day": 4}"#))),
        _ => panic!("expected a sim update"),
    }
}

#[test]
fn action_temporal_message_is_saved() {
    match pusher_action(123, "temporal", "temporal-message", Some(parse(r#"{"doc": "x"}"#))) {
        Ok(PusherAction::Save(obj)) => {
            assert_eq!(obj.kind, EntityKind::Temporal);
            assert_eq!(obj.entity_id, 0);
            assert_eq!(obj.timestamp, 123);
            assert_eq!(obj.request_time, 0);
            assert_eq!(from_json(&obj.data), from_json(&parse(r#"{"doc": "x"}"#)));
        },
        _ => panic!("expected a save"),
    }
}

#[test]
fn action_game_data_saves_events_under_the_game() {
    let payload = parse(r#"[{"displayText": "a"}, {"displayText": "b"}]"#);
    match pusher_action(9, &feed_channel_text(), "game-data", Some(payload)) {
        Ok(PusherAction::SaveGameEvents(id, events)) => {
            assert_eq!(id, GAME);
            assert_eq!(events.len(), 2);
            assert_eq!(from_json(&events[1]), from_json(&parse(r#"{"displayText": "b"}"#)));
        },
        _ => panic!("expected game events"),
    }
}

#[test]
fn action_game_data_errors() {
    let arr = parse("[]");
    assert!(matches!(
        pusher_action(9, "game-feed-not-a-game", "game-data", Some(arr)),
        Err(PusherError::InvalidGameId)
    ));
    assert!(matches!(
        pusher_action(9, &feed_channel_text(), "game-data", Some(parse(r#"{"a": 1}"#))),
        Err(PusherError::NotAnArray)
    ));
}

#[test]
fn action_other_events_do_nothing() {
    assert!(matches!(pusher_action(1, "ticker", "ticker-message", Some(Json::Null)), Ok(PusherAction::Nothing)));
}
