//! Errors of the Discord client.
use vstd::prelude::*;

use crate::text::{decimal, with_number, with_str};
use crate::ws;
use crate::ws::io::IoError;

verus! {

/// Errors from gateway, HTTP, or protocol operations.
#[derive(Debug)]
pub enum Error {
    Io(IoError),
    /// What the TLS layer reported.
    Tls(String),
    InvalidDnsName,
    /// What the JSON parser reported.
    Json(String),
    /// What the system's random number source reported.
    Rng(String),
    WebSocket(ws::error::Error),
    ResponseTooLarge(usize),
    BadStatus,
    InvalidUtf8,
    ConnectionClosed,
    HeadersTooLarge,
    MalformedChunk,
    RetriesExhausted { status: u16 },
    ApiError { status: u16 },
    Reconnect,
    InvalidSession { resumable: bool },
    ConnectionZombied,
    GatewayClosed { code: Option<u16>, reason: String },
    HelloNotText,
    UnexpectedOpcode(u8),
    UnexpectedBinary,
    MalformedDispatch,
    MissingPayload,
    BadHeartbeatInterval(u64),
    BadResumeUrl,
    BadToken,
    BadSessionId,
    NotConnected,
    HandshakeTimeout,
    UnexpectedHandshakeDispatch,
}

impl Error {
    /// What the error says.
    pub open spec fn text(self) -> Seq<char> {
        match self {
            Error::Io(e) => "IO: "@ + e.message@,
            Error::Tls(e) => "TLS: "@ + e@,
            Error::Json(e) => "JSON: "@ + e@,
            Error::Rng(e) => "getrandom: "@ + e@,
            Error::WebSocket(e) => "WebSocket: "@ + e.text(),
            Error::ResponseTooLarge(n) => "response too large: "@ + decimal(n as nat) + " bytes"@,
            Error::RetriesExhausted { status } => "retries exhausted (last status "@ + decimal(
                status as nat,
            ) + ")"@,
            Error::ApiError { status } => "API error (status "@ + decimal(status as nat) + ")"@,
            Error::InvalidSession { resumable } => if resumable {
                "invalid session (resumable: true)"@
            } else {
                "invalid session (resumable: false)"@
            },
            Error::GatewayClosed { code, reason } => match code {
                Some(code) => if reason@.len() == 0 {
                    "gateway closed (code "@ + decimal(code as nat) + ")"@
                } else {
                    "gateway closed (code "@ + decimal(code as nat) + "): "@ + reason@
                },
                None => "gateway closed (no code)"@,
            },
            Error::UnexpectedOpcode(op) => "unexpected opcode "@ + decimal(op as nat),
            Error::BadHeartbeatInterval(ms) => "invalid heartbeat interval: "@ + decimal(ms as nat)
                + "ms"@,
            Error::InvalidDnsName => "invalid DNS name"@,
            Error::BadStatus => "malformed HTTP status line"@,
            Error::InvalidUtf8 => "invalid UTF-8 in response body"@,
            Error::ConnectionClosed => "connection closed"@,
            Error::HeadersTooLarge => "response headers too large"@,
            Error::MalformedChunk => "malformed chunk encoding"@,
            Error::Reconnect => "reconnect requested"@,
            Error::ConnectionZombied => "heartbeat ACK overdue, connection zombied"@,
            Error::HelloNotText => "HELLO was not a text frame"@,
            Error::UnexpectedBinary => "unexpected binary frame on JSON gateway"@,
            Error::MalformedDispatch => "dispatch missing event name or data"@,
            Error::MissingPayload => "gateway payload missing data field"@,
            Error::BadResumeUrl => "invalid resume_gateway_url"@,
            Error::BadToken => "token contains characters requiring JSON escaping"@,
            Error::BadSessionId => "session_id contains characters requiring JSON escaping"@,
            Error::NotConnected => "no active gateway session"@,
            Error::HandshakeTimeout => "gateway handshake timed out"@,
            Error::UnexpectedHandshakeDispatch => "unexpected non-READY dispatch during handshake"@,
        }
    }

    /// What the error says.
    pub fn message(&self) -> (r: String)
        ensures
            r@ == self.text(),
    {
        match self {
            Error::Io(e) => with_str("IO: ", e.message.as_str()),
            Error::Tls(e) => with_str("TLS: ", e.as_str()),
            Error::Json(e) => with_str("JSON: ", e.as_str()),
            Error::Rng(e) => with_str("getrandom: ", e.as_str()),
            Error::WebSocket(e) => with_str("WebSocket: ", e.message().as_str()),
            Error::ResponseTooLarge(n) => {
                let mut r = with_number("response too large: ", *n as u64);
                r.append(" bytes");
                r
            },
            Error::RetriesExhausted { status } => {
                let mut r = with_number("retries exhausted (last status ", *status as u64);
                r.append(")");
                r
            },
            Error::ApiError { status } => {
                let mut r = with_number("API error (status ", *status as u64);
                r.append(")");
                r
            },
            Error::InvalidSession { resumable } => if *resumable {
                "invalid session (resumable: true)".to_string()
            } else {
                "invalid session (resumable: false)".to_string()
            },
            Error::GatewayClosed { code, reason } => match code {
                Some(code) => {
                    let mut r = with_number("gateway closed (code ", *code as u64);
                    if reason.as_str().is_empty() {
                        r.append(")");
                    } else {
                        r.append("): ");
                        r.append(reason.as_str());
                    }
                    r
                },
                None => "gateway closed (no code)".to_string(),
            },
            Error::UnexpectedOpcode(op) => with_number("unexpected opcode ", *op as u64),
            Error::BadHeartbeatInterval(ms) => {
                let mut r = with_number("invalid heartbeat interval: ", *ms);
                r.append("ms");
                r
            },
            Error::InvalidDnsName => "invalid DNS name".to_string(),
            Error::BadStatus => "malformed HTTP status line".to_string(),
            Error::InvalidUtf8 => "invalid UTF-8 in response body".to_string(),
            Error::ConnectionClosed => "connection closed".to_string(),
            Error::HeadersTooLarge => "response headers too large".to_string(),
            Error::MalformedChunk => "malformed chunk encoding".to_string(),
            Error::Reconnect => "reconnect requested".to_string(),
            Error::ConnectionZombied => "heartbeat ACK overdue, connection zombied".to_string(),
            Error::HelloNotText => "HELLO was not a text frame".to_string(),
            Error::UnexpectedBinary => "unexpected binary frame on JSON gateway".to_string(),
            Error::MalformedDispatch => "dispatch missing event name or data".to_string(),
            Error::MissingPayload => "gateway payload missing data field".to_string(),
            Error::BadResumeUrl => "invalid resume_gateway_url".to_string(),
            Error::BadToken => "token contains characters requiring JSON escaping".to_string(),
            Error::BadSessionId => "session_id contains characters requiring JSON escaping".to_string(),
            Error::NotConnected => "no active gateway session".to_string(),
            Error::HandshakeTimeout => "gateway handshake timed out".to_string(),
            Error::UnexpectedHandshakeDispatch => "unexpected non-READY dispatch during handshake".to_string(),
        }
    }
}

impl Error {
    /// What the error that caused this one says.
    pub open spec fn cause(self) -> Option<Seq<char>> {
        match self {
            Error::Io(e) => Some(e.message@),
            Error::Tls(e) => Some(e@),
            Error::Json(e) => Some(e@),
            Error::Rng(e) => Some(e@),
            Error::WebSocket(e) => Some(e.text()),
            _ => None,
        }
    }

    /// What the error that caused this one says.
    pub fn source(&self) -> (r: Option<String>)
        ensures
            match r {
                Some(s) => self.cause() == Some(s@),
                None => self.cause() is None,
            },
    {
        match self {
            Error::Io(e) => Some(e.message.clone()),
            Error::Tls(e) => Some(e.clone()),
            Error::Json(e) => Some(e.clone()),
            Error::Rng(e) => Some(e.clone()),
            Error::WebSocket(e) => Some(e.message()),
            _ => None,
        }
    }
}

impl From<IoError> for Error {
    fn from(e: IoError) -> (r: Self) {
        Error::Io(e)
    }
}

impl vstd::std_specs::convert::FromSpecImpl<IoError> for Error {
    open spec fn obeys_from_spec() -> bool {
        true
    }

    open spec fn from_spec(e: IoError) -> Self {
        Error::Io(e)
    }
}

impl From<ws::error::Error> for Error {
    fn from(e: ws::error::Error) -> (r: Self) {
        Error::WebSocket(e)
    }
}

impl vstd::std_specs::convert::FromSpecImpl<ws::error::Error> for Error {
    open spec fn obeys_from_spec() -> bool {
        true
    }

    open spec fn from_spec(e: ws::error::Error) -> Self {
        Error::WebSocket(e)
    }
}

} // verus!
