//! The gateway: payloads, URLs, error classes, sessions.
use std::ops::Not;

use kamekichi::discord::client::{Client, PollProgress};
use kamekichi::discord::connect::{ConnectEvent, ConnectProgress, ConnectStep, Connecting};
use kamekichi::discord::error::Error;
use kamekichi::discord::gateway::{
    is_safe_for_json_literal, parse_gateway_url, ConnectData, EventType, GatewayAction,
    GatewayPayload, SessData, SessionState, OP_DISPATCH, OP_HEARTBEAT, OP_HEARTBEAT_ACK, OP_HELLO,
    OP_INVALID_SESSION, OP_RECONNECT,
};
use kamekichi::discord::heartbeat::HeartbeatState;
use kamekichi::discord::message::{Author, Emoji, Event, PartialGuild, Ready};
use kamekichi::discord::session::{
    classify_error, AfterSend, ErrorClass, Incoming, PollError, PollEvent, PollStep, ReadyEvent,
    ReadyStep, Session,
};
use kamekichi::ws;
use kamekichi::ws::io::{IoError, IoErrorKind};
use serde_json::Value;

/// Parse a payload as far as JSON goes.
fn parse(text: &str) -> Result<GatewayPayload, String> {
    let v: Value = serde_json::from_str(text).map_err(|e| e.to_string())?;
    Ok(GatewayPayload {
        op: v["op"].as_u64().unwrap() as u8,
        data: if v["d"].is_null() { None } else { Some(v["d"].to_string()) },
        sequence: v["s"].as_u64(),
        event_type: v["t"].as_str().map(|s| s.to_string()),
    })
}

fn process_text(text: &str) -> Result<GatewayAction, Error> {
    kamekichi::discord::gateway::process_text(parse(text))
}

fn gw(op: u8, d: Option<Value>, s: Option<u64>, t: Option<&str>) -> String {
    let mut m = serde_json::Map::new();
    m.insert("op".to_string(), Value::from(op));
    m.insert("d".to_string(), d.unwrap_or(Value::Null));
    m.insert("s".to_string(), s.map_or(Value::Null, Value::from));
    m.insert("t".to_string(), t.map_or(Value::Null, Value::from));
    Value::Object(m).to_string()
}

#[test]
fn gateway_process_heartbeat_ack() {
    assert!(matches!(
        process_text(&gw(OP_HEARTBEAT_ACK, None, None, None)),
        Ok(GatewayAction::HeartbeatAck)
    ));
}

#[test]
fn gateway_process_server_heartbeat() {
    assert!(matches!(
        process_text(&gw(OP_HEARTBEAT, None, None, None)),
        Ok(GatewayAction::SendHeartbeat)
    ));
}

#[test]
fn gateway_process_reconnect() {
    assert!(matches!(
        process_text(&gw(OP_RECONNECT, None, None, None)),
        Err(Error::Reconnect)
    ));
}

#[test]
fn gateway_process_invalid_session_resumable() {
    let text = gw(
        OP_INVALID_SESSION,
        Some(Value::Bool(true)),
        None,
        None,
    );
    assert!(matches!(
        process_text(&text),
        Err(Error::InvalidSession { resumable: true })
    ));
}

#[test]
fn gateway_process_invalid_session_not_resumable() {
    let text = gw(
        OP_INVALID_SESSION,
        Some(Value::Bool(false)),
        None,
        None,
    );
    assert!(matches!(
        process_text(&text),
        Err(Error::InvalidSession { resumable: false })
    ));
}

#[test]
fn gateway_process_invalid_session_null_data() {
    let text = gw(OP_INVALID_SESSION, None, None, None);
    assert!(matches!(
        process_text(&text),
        Err(Error::InvalidSession { resumable: false })
    ));
}

#[test]
fn gateway_process_dispatch() {
    let text = gw(
        OP_DISPATCH,
        Some(Value::Object(serde_json::Map::from_iter([("content".to_string(), Value::from("hi"))]))),
        Some(42),
        Some("MESSAGE_CREATE"),
    );
    match process_text(&text).unwrap() {
        GatewayAction::Dispatch(d) => {
            assert_eq!(d.sequence, 42);
            assert_eq!(d.event_type, Some(EventType::MessageCreate));
        }
        other => panic!("expected Dispatch, got {other:?}"),
    }
}

#[test]
fn gateway_process_dispatch_missing_sequence() {
    let text = gw(
        OP_DISPATCH,
        Some(Value::Object(serde_json::Map::new())),
        None,
        Some("READY"),
    );
    assert!(matches!(process_text(&text), Err(Error::MalformedDispatch)));
}

#[test]
fn gateway_process_dispatch_missing_event_type() {
    let text = gw(OP_DISPATCH, Some(Value::Object(serde_json::Map::new())), Some(1), None);
    match process_text(&text).unwrap() {
        GatewayAction::Dispatch(d) => {
            assert_eq!(d.sequence, 1);
            assert!(d.event_type.is_none());
            assert!(d.data.is_some());
        }
        other => panic!("expected Dispatch, got {other:?}"),
    }
}

#[test]
fn gateway_process_dispatch_missing_data() {
    let text = gw(OP_DISPATCH, None, Some(1), Some("READY"));
    match process_text(&text).unwrap() {
        GatewayAction::Dispatch(d) => {
            assert_eq!(d.sequence, 1);
            assert_eq!(d.event_type, Some(EventType::Ready));
            assert!(d.data.is_none());
        }
        other => panic!("expected Dispatch, got {other:?}"),
    }
}

#[test]
fn gateway_process_unknown_opcode() {
    let text = gw(99, None, None, None);
    assert!(matches!(
        process_text(&text),
        Err(Error::UnexpectedOpcode(99))
    ));
}

#[test]
fn gateway_process_malformed_json() {
    assert!(matches!(process_text("not json"), Err(Error::Json(_))));
}

#[test]
fn gateway_gateway_url_host_only() {
    let u = parse_gateway_url("wss://gateway-us-east1-b.discord.gg").unwrap();
    assert_eq!(u.host, "gateway-us-east1-b.discord.gg");
    assert_eq!(u.port, 443);
    assert_eq!(u.path, "/");
}

#[test]
fn gateway_gateway_url_with_path() {
    let u = parse_gateway_url("wss://gw.discord.gg/?v=10&encoding=json").unwrap();
    assert_eq!(u.host, "gw.discord.gg");
    assert_eq!(u.port, 443);
    assert_eq!(u.path, "/?v=10&encoding=json");
}

#[test]
fn gateway_gateway_url_with_port() {
    let u = parse_gateway_url("wss://gw.discord.gg:8443/ws").unwrap();
    assert_eq!(u.host, "gw.discord.gg");
    assert_eq!(u.port, 8443);
    assert_eq!(u.path, "/ws");
}

#[test]
fn gateway_gateway_url_with_port_no_path() {
    let u = parse_gateway_url("wss://gw.discord.gg:443").unwrap();
    assert_eq!(u.host, "gw.discord.gg");
    assert_eq!(u.port, 443);
    assert_eq!(u.path, "/");
}

#[test]
fn gateway_gateway_url_query_no_slash() {
    assert!(parse_gateway_url("wss://gw.discord.gg?v=10").is_err());
}

#[test]
fn gateway_gateway_url_bad_scheme() {
    assert!(parse_gateway_url("https://gw.discord.gg").is_err());
}

#[test]
fn gateway_gateway_url_bad_port() {
    assert!(parse_gateway_url("wss://gw.discord.gg:notaport/path").is_err());
}

#[test]
fn gateway_gateway_url_empty_host() {
    assert!(parse_gateway_url("wss://").is_err());
    assert!(parse_gateway_url("wss://:443/path").is_err());
}

#[test]
fn gateway_gateway_url_ipv6_rejected() {
    assert!(parse_gateway_url("wss://[::1]:443/path").is_err());
    assert!(parse_gateway_url("wss://[::1]/path").is_err());
}

#[test]
fn gateway_json_literal_safe_token() {
    assert!(is_safe_for_json_literal(
        "Bot MTIzNDU2Nzg5.abc123.xyz_ABC-789"
    ));
}

#[test]
fn gateway_json_literal_rejects_quote() {
    assert!(is_safe_for_json_literal(r#"has"quote"#).not());
}

#[test]
fn gateway_json_literal_rejects_backslash() {
    assert!(is_safe_for_json_literal(r"has\slash").not());
}

#[test]
fn gateway_json_literal_rejects_non_ascii() {
    assert!(is_safe_for_json_literal("caf\u{e9}").not());
}

#[test]
fn gateway_json_literal_rejects_control_chars() {
    assert!(is_safe_for_json_literal("has\nnewline").not());
    assert!(is_safe_for_json_literal("has\0null").not());
    assert!(is_safe_for_json_literal("has\ttab").not());
}

#[test]
fn gateway_json_literal_accepts_empty() {
    assert!(is_safe_for_json_literal(""));
}

#[test]
fn gateway_json_literal_accepts_all_safe_ascii() {
    let safe: String = (b' '..=b'~')
        .filter(|&b| b != b'"' && b != b'\\')
        .map(|b| b as char)
        .collect();
    assert!(is_safe_for_json_literal(&safe));
}

#[test]
fn gateway_classify_fatal_close_codes() {
    for code in [4004, 4010, 4011, 4012, 4013, 4014] {
        assert_eq!(
            classify_error(&Error::GatewayClosed {
                code: Some(code),
                reason: String::new()
            }),
            ErrorClass::Fatal,
            "code {code}"
        );
    }
}

#[test]
fn gateway_classify_non_resumable_close_codes() {
    for code in [4007, 4009] {
        assert_eq!(
            classify_error(&Error::GatewayClosed {
                code: Some(code),
                reason: String::new()
            }),
            ErrorClass::Reconnect,
            "code {code}"
        );
    }
}

#[test]
fn gateway_classify_other_close_codes_resume() {
    for code in [4000, 4001, 4002, 4003, 4005, 4008] {
        assert_eq!(
            classify_error(&Error::GatewayClosed {
                code: Some(code),
                reason: String::new()
            }),
            ErrorClass::Resume,
            "code {code}"
        );
    }
}

#[test]
fn gateway_classify_connection_errors_resume() {
    assert_eq!(classify_error(&Error::Reconnect), ErrorClass::Resume);
    assert_eq!(
        classify_error(&Error::ConnectionZombied),
        ErrorClass::Resume
    );
    assert_eq!(classify_error(&Error::ConnectionClosed), ErrorClass::Resume);
    assert_eq!(
        classify_error(&Error::Io(IoError {
            kind: IoErrorKind::Other,
            message: String::new()
        })),
        ErrorClass::Resume
    );
    assert_eq!(
        classify_error(&Error::WebSocket(ws::error::Error::Reconnect(
            ws::error::ConnectionError::Closed
        ))),
        ErrorClass::Resume
    );
    assert_eq!(
        classify_error(&Error::InvalidSession { resumable: true }),
        ErrorClass::Resume
    );
}

#[test]
fn gateway_classify_invalid_session_not_resumable() {
    assert_eq!(
        classify_error(&Error::InvalidSession { resumable: false }),
        ErrorClass::Reconnect
    );
}

#[test]
fn gateway_classify_transient_errors() {
    assert_eq!(
        classify_error(&Error::Json(serde_json::from_str::<()>("x").unwrap_err().to_string())),
        ErrorClass::Transient
    );
    assert_eq!(
        classify_error(&Error::UnexpectedOpcode(99)),
        ErrorClass::Transient
    );
    assert_eq!(
        classify_error(&Error::UnexpectedBinary),
        ErrorClass::Transient
    );
    assert_eq!(
        classify_error(&Error::MalformedDispatch),
        ErrorClass::Transient
    );
    assert_eq!(
        classify_error(&Error::MissingPayload),
        ErrorClass::Transient
    );
}

#[test]
fn tests_process_heartbeat_ack() {
    assert!(matches!(
        process_text(&gw(OP_HEARTBEAT_ACK, None, None, None)),
        Ok(GatewayAction::HeartbeatAck)
    ));
}

#[test]
fn tests_process_server_heartbeat() {
    assert!(matches!(
        process_text(&gw(OP_HEARTBEAT, None, None, None)),
        Ok(GatewayAction::SendHeartbeat)
    ));
}

#[test]
fn tests_process_reconnect() {
    assert!(matches!(
        process_text(&gw(OP_RECONNECT, None, None, None)),
        Err(Error::Reconnect)
    ));
}

#[test]
fn tests_process_invalid_session_resumable() {
    let text = gw(
        OP_INVALID_SESSION,
        Some(Value::Bool(true)),
        None,
        None,
    );
    assert!(matches!(
        process_text(&text),
        Err(Error::InvalidSession { resumable: true })
    ));
}

#[test]
fn tests_process_invalid_session_not_resumable() {
    let text = gw(
        OP_INVALID_SESSION,
        Some(Value::Bool(false)),
        None,
        None,
    );
    assert!(matches!(
        process_text(&text),
        Err(Error::InvalidSession { resumable: false })
    ));
}

#[test]
fn tests_process_invalid_session_null_data() {
    let text = gw(OP_INVALID_SESSION, None, None, None);
    assert!(matches!(
        process_text(&text),
        Err(Error::InvalidSession { resumable: false })
    ));
}

#[test]
fn tests_process_dispatch() {
    let text = gw(
        OP_DISPATCH,
        Some(Value::Object(serde_json::Map::from_iter([("content".to_string(), Value::from("hi"))]))),
        Some(42),
        Some("MESSAGE_CREATE"),
    );
    match process_text(&text).unwrap() {
        GatewayAction::Dispatch(d) => {
            assert_eq!(d.sequence, 42);
            assert_eq!(d.event_type, Some(EventType::MessageCreate));
        }
        other => panic!("expected Dispatch, got {other:?}"),
    }
}

#[test]
fn tests_process_dispatch_missing_sequence() {
    let text = gw(
        OP_DISPATCH,
        Some(Value::Object(serde_json::Map::new())),
        None,
        Some("READY"),
    );
    assert!(matches!(process_text(&text), Err(Error::MalformedDispatch)));
}

#[test]
fn tests_process_dispatch_missing_event_type() {
    let text = gw(OP_DISPATCH, Some(Value::Object(serde_json::Map::new())), Some(1), None);
    match process_text(&text).unwrap() {
        GatewayAction::Dispatch(d) => {
            assert_eq!(d.sequence, 1);
            assert!(d.event_type.is_none());
            assert!(d.data.is_some());
        }
        other => panic!("expected Dispatch, got {other:?}"),
    }
}

#[test]
fn tests_process_dispatch_missing_data() {
    let text = gw(OP_DISPATCH, None, Some(1), Some("READY"));
    match process_text(&text).unwrap() {
        GatewayAction::Dispatch(d) => {
            assert_eq!(d.sequence, 1);
            assert_eq!(d.event_type, Some(EventType::Ready));
            assert!(d.data.is_none());
        }
        other => panic!("expected Dispatch, got {other:?}"),
    }
}

#[test]
fn tests_process_unknown_opcode() {
    let text = gw(99, None, None, None);
    assert!(matches!(
        process_text(&text),
        Err(Error::UnexpectedOpcode(99))
    ));
}

#[test]
fn tests_process_malformed_json() {
    assert!(matches!(process_text("not json"), Err(Error::Json(_))));
}

#[test]
fn tests_gateway_url_host_only() {
    let u = parse_gateway_url("wss://gateway-us-east1-b.discord.gg").unwrap();
    assert_eq!(u.host, "gateway-us-east1-b.discord.gg");
    assert_eq!(u.port, 443);
    assert_eq!(u.path, "/");
}

#[test]
fn tests_gateway_url_with_path() {
    let u = parse_gateway_url("wss://gw.discord.gg/?v=10&encoding=json").unwrap();
    assert_eq!(u.host, "gw.discord.gg");
    assert_eq!(u.port, 443);
    assert_eq!(u.path, "/?v=10&encoding=json");
}

#[test]
fn tests_gateway_url_with_port() {
    let u = parse_gateway_url("wss://gw.discord.gg:8443/ws").unwrap();
    assert_eq!(u.host, "gw.discord.gg");
    assert_eq!(u.port, 8443);
    assert_eq!(u.path, "/ws");
}

#[test]
fn tests_gateway_url_with_port_no_path() {
    let u = parse_gateway_url("wss://gw.discord.gg:443").unwrap();
    assert_eq!(u.host, "gw.discord.gg");
    assert_eq!(u.port, 443);
    assert_eq!(u.path, "/");
}

#[test]
fn tests_gateway_url_query_no_slash() {
    assert!(parse_gateway_url("wss://gw.discord.gg?v=10").is_err());
}

#[test]
fn tests_gateway_url_bad_scheme() {
    assert!(parse_gateway_url("https://gw.discord.gg").is_err());
}

#[test]
fn tests_gateway_url_bad_port() {
    assert!(parse_gateway_url("wss://gw.discord.gg:notaport/path").is_err());
}

#[test]
fn tests_gateway_url_empty_host() {
    assert!(parse_gateway_url("wss://").is_err());
    assert!(parse_gateway_url("wss://:443/path").is_err());
}

#[test]
fn tests_gateway_url_ipv6_rejected() {
    assert!(parse_gateway_url("wss://[::1]:443/path").is_err());
    assert!(parse_gateway_url("wss://[::1]/path").is_err());
}

#[test]
fn tests_json_literal_safe_token() {
    assert!(is_safe_for_json_literal(
        "Bot MTIzNDU2Nzg5.abc123.xyz_ABC-789"
    ));
}

#[test]
fn tests_json_literal_rejects_quote() {
    assert!(is_safe_for_json_literal(r#"has"quote"#).not());
}

#[test]
fn tests_json_literal_rejects_backslash() {
    assert!(is_safe_for_json_literal(r"has\slash").not());
}

#[test]
fn tests_json_literal_rejects_non_ascii() {
    assert!(is_safe_for_json_literal("caf\u{e9}").not());
}

#[test]
fn tests_json_literal_rejects_control_chars() {
    assert!(is_safe_for_json_literal("has\nnewline").not());
    assert!(is_safe_for_json_literal("has\0null").not());
    assert!(is_safe_for_json_literal("has\ttab").not());
}

#[test]
fn tests_json_literal_accepts_empty() {
    assert!(is_safe_for_json_literal(""));
}

#[test]
fn tests_json_literal_accepts_all_safe_ascii() {
    let safe: String = (b' '..=b'~')
        .filter(|&b| b != b'"' && b != b'\\')
        .map(|b| b as char)
        .collect();
    assert!(is_safe_for_json_literal(&safe));
}

#[test]
fn tests_classify_fatal_close_codes() {
    for code in [4004, 4010, 4011, 4012, 4013, 4014] {
        assert_eq!(
            classify_error(&Error::GatewayClosed {
                code: Some(code),
                reason: String::new()
            }),
            ErrorClass::Fatal,
            "code {code}"
        );
    }
}

#[test]
fn tests_classify_non_resumable_close_codes() {
    for code in [4007, 4009] {
        assert_eq!(
            classify_error(&Error::GatewayClosed {
                code: Some(code),
                reason: String::new()
            }),
            ErrorClass::Reconnect,
            "code {code}"
        );
    }
}

#[test]
fn tests_classify_other_close_codes_resume() {
    for code in [4000, 4001, 4002, 4003, 4005, 4008] {
        assert_eq!(
            classify_error(&Error::GatewayClosed {
                code: Some(code),
                reason: String::new()
            }),
            ErrorClass::Resume,
            "code {code}"
        );
    }
}

#[test]
fn tests_classify_connection_errors_resume() {
    assert_eq!(classify_error(&Error::Reconnect), ErrorClass::Resume);
    assert_eq!(
        classify_error(&Error::ConnectionZombied),
        ErrorClass::Resume
    );
    assert_eq!(classify_error(&Error::ConnectionClosed), ErrorClass::Resume);
    assert_eq!(
        classify_error(&Error::Io(IoError {
            kind: IoErrorKind::Other,
            message: String::new()
        })),
        ErrorClass::Resume
    );
    assert_eq!(
        classify_error(&Error::WebSocket(ws::error::Error::Reconnect(
            ws::error::ConnectionError::Closed
        ))),
        ErrorClass::Resume
    );
    assert_eq!(
        classify_error(&Error::InvalidSession { resumable: true }),
        ErrorClass::Resume
    );
}

#[test]
fn tests_classify_invalid_session_not_resumable() {
    assert_eq!(
        classify_error(&Error::InvalidSession { resumable: false }),
        ErrorClass::Reconnect
    );
}

#[test]
fn tests_classify_transient_errors() {
    assert_eq!(
        classify_error(&Error::Json(serde_json::from_str::<()>("x").unwrap_err().to_string())),
        ErrorClass::Transient
    );
    assert_eq!(
        classify_error(&Error::UnexpectedOpcode(99)),
        ErrorClass::Transient
    );
    assert_eq!(
        classify_error(&Error::UnexpectedBinary),
        ErrorClass::Transient
    );
    assert_eq!(
        classify_error(&Error::MalformedDispatch),
        ErrorClass::Transient
    );
    assert_eq!(
        classify_error(&Error::MissingPayload),
        ErrorClass::Transient
    );
}

// ---- URLs ----

#[test]
fn gateway_url_last_colon_and_plus_sign() {
    assert!(parse_gateway_url("wss://a:b:99").is_ok());
    assert_eq!(parse_gateway_url("wss://a:b:99").unwrap().host, "a:b");
    assert_eq!(parse_gateway_url("wss://h:+80/").unwrap().port, 80);
    assert!(matches!(parse_gateway_url("wss://h:65536/"), Err(Error::BadResumeUrl)));
    assert!(parse_gateway_url("wss://h:/").is_err());
}

#[test]
fn target_has_version_and_encoding() {
    let t = SessionState::Resuming(sess_data()).target().unwrap();
    assert_eq!((t.host.as_str(), t.port, t.path.as_str()), ("gw", 443, "/?v=10&encoding=json"));
    let t = SessionState::Identifying(ConnectData {
        gateway_url: "wss://gw/x?v=9".to_string(),
        intents: 0,
    })
    .target()
    .unwrap();
    assert_eq!(t.path, "/x?v=9");
}

fn sess_data() -> SessData {
    SessData {
        session_id: "sid".to_string(),
        resume_gateway_url: "wss://gw".to_string(),
        sequence: 42,
        bot_user_id: 7,
        guild_ids: vec![1, 2],
    }
}

// ---- Opening payloads ----

#[test]
fn opening_payloads() {
    let resume = SessionState::Resuming(sess_data());
    assert_eq!(
        resume.opening_payload("tok", "linux").unwrap(),
        r#"{"op":6,"d":{"token":"tok","session_id":"sid","seq":42}}"#
    );
    let identify = SessionState::Identifying(ConnectData {
        gateway_url: String::new(),
        intents: 513,
    });
    let text = identify.opening_payload("tok", "linux").unwrap();
    assert_eq!(
        text,
        r#"{"op":2,"d":{"token":"tok","intents":513,"properties":{"os":"linux","browser":"discord-bot","device":"discord-bot"}}}"#
    );
    assert!(serde_json::from_str::<Value>(&text).is_ok());
    assert!(matches!(identify.opening_payload("a\"b", "linux"), Err(Error::BadToken)));
    let mut bad = sess_data();
    bad.session_id = "x\\".to_string();
    assert!(matches!(
        SessionState::Resuming(bad).opening_payload("tok", "linux"),
        Err(Error::BadSessionId)
    ));
}

// ---- Polling ----

const MS: u64 = 1_000_000;

fn session() -> Session {
    Session {
        heartbeat: HeartbeatState {
            interval: 1000 * MS,
            next_heartbeat: 1000 * MS,
            ack_pending: false,
            last_ack: 0,
        },
        data: sess_data(),
    }
}

fn text(s: &str) -> PollEvent {
    PollEvent::Received(Incoming::Text(parse(s)))
}

#[test]
fn poll_sends_heartbeat_when_due_then_reads() {
    let mut s = session();
    assert!(matches!(
        s.poll(PollEvent::Begin, 400 * MS),
        PollStep::Read { timeout } if timeout == 600 * MS
    ));
    match s.poll(PollEvent::Begin, 1000 * MS) {
        PollStep::Send { text, after } => {
            assert_eq!(text, r#"{"op":1,"d":42}"#);
            assert_eq!(after, AfterSend::Read);
        }
        other => panic!("expected Send, got {other:?}"),
    }
    assert!(matches!(
        s.poll(PollEvent::Sent { after: AfterSend::Read, result: Ok(()) }, 1000 * MS),
        PollStep::Read { timeout } if timeout == 1000 * MS
    ));
    assert!(s.heartbeat.ack_pending);
    // Unanswered until the next one is due: zombied.
    assert!(matches!(
        s.poll(PollEvent::Begin, 2000 * MS),
        PollStep::Done(Err(Error::ConnectionZombied))
    ));
    // Answered in time: alive.
    assert!(matches!(s.poll(text(&gw(OP_HEARTBEAT_ACK, None, None, None)), 1500 * MS), PollStep::Read { .. }));
    assert!(matches!(s.poll(PollEvent::Begin, 2000 * MS), PollStep::Send { .. }));
}

#[test]
fn poll_answers_requested_heartbeat() {
    let mut s = session();
    match s.poll(text(&gw(OP_HEARTBEAT, None, None, None)), 10) {
        PollStep::Send { text, after } => {
            assert_eq!(text, r#"{"op":1,"d":42}"#);
            assert_eq!(after, AfterSend::Check);
        }
        other => panic!("expected Send, got {other:?}"),
    }
}

#[test]
fn poll_advances_the_sequence_even_of_malformed_dispatches() {
    let mut s = session();
    assert!(matches!(
        s.poll(text(&gw(OP_DISPATCH, None, Some(50), Some("MESSAGE_CREATE"))), 0),
        PollStep::Done(Err(Error::MissingPayload))
    ));
    assert_eq!(s.data.sequence, 50);
    assert!(matches!(
        s.poll(text(&gw(OP_DISPATCH, Some(Value::Bool(true)), Some(51), None)), 0),
        PollStep::Done(Err(Error::MalformedDispatch))
    ));
    assert_eq!(s.data.sequence, 51);
    assert!(matches!(
        s.poll(text(&gw(OP_DISPATCH, Some(Value::Bool(true)), Some(52), Some("TYPING_START"))), 0),
        PollStep::Read { .. }
    ));
    assert_eq!(s.data.sequence, 52);
    match s.poll(text(&gw(OP_DISPATCH, Some(Value::Bool(true)), Some(53), Some("MESSAGE_DELETE"))), 0) {
        PollStep::Parse { event_type, data } => {
            assert_eq!(event_type, EventType::MessageDelete);
            assert_eq!(data, "true");
        }
        other => panic!("expected Parse, got {other:?}"),
    }
    assert!(matches!(
        s.poll(text(&gw(OP_DISPATCH, Some(Value::Bool(true)), Some(54), Some("RESUMED"))), 0),
        PollStep::Done(Ok(Some(Event::Resumed)))
    ));
}

#[test]
fn poll_ends_with_what_was_read() {
    let mut s = session();
    assert!(matches!(
        s.poll(PollEvent::Received(Incoming::Idle), 0),
        PollStep::Done(Ok(None))
    ));
    assert!(matches!(
        s.poll(PollEvent::Received(Incoming::Binary), 0),
        PollStep::Done(Err(Error::UnexpectedBinary))
    ));
    assert!(matches!(
        s.poll(
            PollEvent::Received(Incoming::Failed(ws::error::Error::Reconnect(
                ws::error::ConnectionError::Closed
            ))),
            0
        ),
        PollStep::Done(Err(Error::ConnectionClosed))
    ));
    assert!(matches!(
        s.poll(
            PollEvent::Received(Incoming::Failed(ws::error::Error::Reconnect(
                ws::error::ConnectionError::Flood
            ))),
            0
        ),
        PollStep::Done(Err(Error::WebSocket(_)))
    ));
    assert!(matches!(
        s.poll(PollEvent::Parsed(Err("bad".to_string())), 0),
        PollStep::Done(Err(Error::Json(_)))
    ));
}

#[test]
fn client_keeps_or_gives_up_the_session() {
    let mut c = Client::new("tok".to_string());
    assert!(matches!(
        c.poll(PollEvent::Begin, 0),
        PollProgress::Done(Err(PollError::NotConnected))
    ));
    assert!(matches!(c.bot_user_id(), Err(Error::NotConnected)));
    c.connected(session());
    assert_eq!(c.bot_user_id().unwrap(), 7);
    assert_eq!(c.guild_ids().unwrap(), [1, 2]);
    assert!(matches!(
        c.poll(PollEvent::Received(Incoming::Binary), 0),
        PollProgress::Done(Err(PollError::Transient(Error::UnexpectedBinary)))
    ));
    assert!(c.session.is_some());
    match c.poll(text(&gw(OP_RECONNECT, None, None, None)), 0) {
        PollProgress::Done(Err(PollError::Resume { error, session })) => {
            assert!(matches!(error, Error::Reconnect));
            assert_eq!(session.sequence, 42);
        }
        other => panic!("expected Resume, got {other:?}"),
    }
    assert!(c.session.is_none());
    c.connected(session());
    let close = |code| {
        PollEvent::Received(Incoming::Close { code: Some(code), reason: String::new() })
    };
    assert!(matches!(
        c.poll(close(4004), 0),
        PollProgress::Done(Err(PollError::Fatal(_)))
    ));
    c.connected(session());
    assert!(matches!(
        c.poll(close(4009), 0),
        PollProgress::Done(Err(PollError::Reconnect(_)))
    ));
}

// ---- Connecting ----

fn pending(p: ConnectProgress) -> (Connecting, ConnectStep) {
    match p {
        ConnectProgress::Pending(c, step) => (c, step),
        other => panic!("expected Pending, got {other:?}"),
    }
}

fn ready() -> Ready {
    Ready {
        user: Author { id: 9, username: "bot".to_string() },
        guilds: vec![PartialGuild { id: 100 }, PartialGuild { id: 200 }],
        session_id: "abc".to_string(),
        resume_gateway_url: "wss://resume".to_string(),
    }
}

#[test]
fn connect_identifies_and_waits_for_ready() {
    let state = SessionState::Identifying(ConnectData {
        gateway_url: "wss://gw/?v=10".to_string(),
        intents: 1,
    });
    let c = Connecting::new("tok".to_string(), "linux".to_string(), state);
    let (c, step) = pending(Session::connect(c, ConnectEvent::Begin, 0));
    match step {
        ConnectStep::Open(url) => assert_eq!(url.host, "gw"),
        other => panic!("expected Open, got {other:?}"),
    }
    let (c, step) = pending(Session::connect(c, ConnectEvent::Opened(Ok(())), 0));
    assert!(matches!(step, ConnectStep::Read));
    let hello = Incoming::Text(parse(&gw(OP_HELLO, Some(Value::from(1)), None, None)));
    let (c, step) = pending(Session::connect(c, ConnectEvent::Received(hello), 0));
    assert!(matches!(step, ConnectStep::ParseHello(d) if d == "1"));
    let (c, step) = pending(Session::connect(c, ConnectEvent::HelloParsed(Ok(1000)), 0));
    assert!(matches!(step, ConnectStep::Send(t) if t.starts_with(r#"{"op":2,"#)));
    let (c, step) = pending(Session::connect(c, ConnectEvent::Sent(Ok(())), 0));
    assert!(matches!(step, ConnectStep::DrawDelay { interval_ms: 1000 }));
    let (c, step) = pending(Session::connect(c, ConnectEvent::Delay(Ok(300 * MS)), 0));
    assert!(matches!(
        step,
        ConnectStep::Wait(ReadyStep::Read { timeout }) if timeout == 300 * MS
    ));
    // Silence until the heartbeat is due.
    let (c, step) = pending(Session::connect(
        c,
        ConnectEvent::Wait(ReadyEvent::Received(Incoming::Idle)),
        300 * MS,
    ));
    match step {
        ConnectStep::Wait(ReadyStep::Send { text, after }) => {
            assert_eq!(text, r#"{"op":1,"d":null}"#);
            assert_eq!(after, AfterSend::Check);
        }
        other => panic!("expected Send, got {other:?}"),
    }
    let (c, _) = pending(Session::connect(
        c,
        ConnectEvent::Wait(ReadyEvent::Sent { after: AfterSend::Check, result: Ok(()) }),
        300 * MS,
    ));
    let dispatch = Incoming::Text(parse(&gw(
        OP_DISPATCH,
        Some(Value::Bool(true)),
        Some(1),
        Some("READY"),
    )));
    let (c, step) = pending(Session::connect(
        c,
        ConnectEvent::Wait(ReadyEvent::Received(dispatch)),
        400 * MS,
    ));
    assert!(matches!(step, ConnectStep::Wait(ReadyStep::Parse { sequence: 1, .. })));
    match Session::connect(
        c,
        ConnectEvent::Wait(ReadyEvent::Parsed { sequence: 1, ready: Ok(ready()) }),
        400 * MS,
    ) {
        ConnectProgress::Done(Ok(s)) => {
            assert_eq!(s.data.session_id, "abc");
            assert_eq!(s.data.guild_ids, vec![100, 200]);
            assert_eq!(s.data.bot_user_id, 9);
            assert_eq!(s.data.sequence, 1);
            assert!(s.heartbeat.ack_pending);
        }
        other => panic!("expected a session, got {other:?}"),
    }
}

#[test]
fn connect_resumes_without_ready() {
    let c = Connecting {
        token: "tok".to_string(),
        os: "linux".to_string(),
        state: SessionState::Resuming(sess_data()),
        stage: kamekichi::discord::connect::Stage::Jitter { interval_ms: 41_250 },
    };
    match Session::connect(c, ConnectEvent::Delay(Ok(5)), 10) {
        ConnectProgress::Done(Ok(s)) => {
            assert_eq!(s.data.sequence, 42);
            assert_eq!(s.heartbeat.interval, 41_250 * MS);
            assert_eq!(s.heartbeat.next_heartbeat, 15);
        }
        other => panic!("expected a session, got {other:?}"),
    }
}

#[test]
fn connect_failures() {
    let at = |stage| Connecting {
        token: "tok".to_string(),
        os: "linux".to_string(),
        state: SessionState::Identifying(ConnectData {
            gateway_url: "http://no".to_string(),
            intents: 1,
        }),
        stage,
    };
    let failed = |p| match p {
        ConnectProgress::Done(Err(e)) => e,
        other => panic!("expected an error, got {other:?}"),
    };
    use_stages(at, failed);
}

fn use_stages(
    at: impl Fn(kamekichi::discord::connect::Stage) -> Connecting,
    failed: impl Fn(ConnectProgress) -> Error,
) {
    let hello = || at(kamekichi::discord::connect::Stage::Hello);
    let received = |i| ConnectEvent::Received(i);
    assert!(matches!(
        failed(Session::connect(at(kamekichi::discord::connect::Stage::New), ConnectEvent::Begin, 0)),
        Error::BadResumeUrl
    ));
    assert!(matches!(
        failed(Session::connect(hello(), received(Incoming::Idle), 0)),
        Error::HandshakeTimeout
    ));
    assert!(matches!(
        failed(Session::connect(hello(), received(Incoming::Binary), 0)),
        Error::HelloNotText
    ));
    let wrong = Incoming::Text(parse(&gw(OP_DISPATCH, None, None, None)));
    assert!(matches!(
        failed(Session::connect(hello(), received(wrong), 0)),
        Error::UnexpectedOpcode(0)
    ));
    let empty = Incoming::Text(parse(&gw(OP_HELLO, None, None, None)));
    assert!(matches!(
        failed(Session::connect(hello(), received(empty), 0)),
        Error::MissingPayload
    ));
    let jitter = |interval_ms| at(kamekichi::discord::connect::Stage::Jitter { interval_ms });
    assert!(matches!(
        failed(Session::connect(jitter(0), ConnectEvent::Delay(Ok(0)), 0)),
        Error::BadHeartbeatInterval(0)
    ));
    assert!(matches!(
        failed(Session::connect(jitter(300_001), ConnectEvent::Delay(Ok(0)), 0)),
        Error::BadHeartbeatInterval(300_001)
    ));
    assert!(matches!(
        failed(Session::connect(jitter(10), ConnectEvent::Delay(Err("no".to_string())), 0)),
        Error::Rng(_)
    ));
    // READY must come before anything else, and within two intervals.
    let (c, _) = match Session::connect(jitter(10), ConnectEvent::Delay(Ok(10 * MS)), 0) {
        ConnectProgress::Pending(c, step) => (c, step),
        other => panic!("expected Pending, got {other:?}"),
    };
    let other = Incoming::Text(parse(&gw(
        OP_DISPATCH,
        Some(Value::Bool(true)),
        Some(1),
        Some("GUILD_CREATE"),
    )));
    assert!(matches!(
        failed(Session::connect(c, ConnectEvent::Wait(ReadyEvent::Received(other)), 0)),
        Error::UnexpectedHandshakeDispatch
    ));
    let (c, _) = match Session::connect(jitter(10), ConnectEvent::Delay(Ok(100 * MS)), 0) {
        ConnectProgress::Pending(c, step) => (c, step),
        other => panic!("expected Pending, got {other:?}"),
    };
    assert!(matches!(
        failed(Session::connect(
            c,
            ConnectEvent::Wait(ReadyEvent::Received(Incoming::Idle)),
            20 * MS
        )),
        Error::HandshakeTimeout
    ));
}

// ---- Texts ----

#[test]
fn error_messages() {
    assert_eq!(
        Error::GatewayClosed { code: Some(4000), reason: "why".to_string() }.message(),
        "gateway closed (code 4000): why"
    );
    assert_eq!(
        Error::GatewayClosed { code: Some(4000), reason: String::new() }.message(),
        "gateway closed (code 4000)"
    );
    assert_eq!(
        Error::GatewayClosed { code: None, reason: "x".to_string() }.message(),
        "gateway closed (no code)"
    );
    assert_eq!(
        PollError::Transient(Error::UnexpectedOpcode(99)).message(),
        "transient: unexpected opcode 99"
    );
    assert_eq!(
        Error::InvalidSession { resumable: true }.message(),
        "invalid session (resumable: true)"
    );
}

#[test]
fn error_sources() {
    let io = IoError { kind: IoErrorKind::Other, message: "broken".to_string() };
    assert_eq!(Error::from(io).source(), Some("broken".to_string()));
    let ws = ws::error::Error::Reconnect(ws::error::ConnectionError::Closed);
    assert_eq!(Error::from(ws).source(), Some("connection error".to_string()));
    assert_eq!(Error::BadStatus.source(), None);
    assert_eq!(
        PollError::Fatal(Error::BadStatus).source(),
        Some("malformed HTTP status line".to_string())
    );
    assert_eq!(PollError::NotConnected.source(), None);
}

#[test]
fn emoji_texts() {
    let emoji = |name: Option<&str>, id| Emoji { name: name.map(|s| s.to_string()), id };
    assert_eq!(emoji(Some("kame"), Some(999)).to_text(), "kame:999");
    assert_eq!(emoji(Some("\u{1f44d}"), None).to_text(), "\u{1f44d}");
    assert_eq!(emoji(None, Some(5)).to_text(), "_5");
    assert_eq!(emoji(None, None).to_text(), "");
}
