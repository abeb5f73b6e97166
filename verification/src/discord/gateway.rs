//! The gateway: URLs, payloads, events, and the connection's life.
use vstd::prelude::*;
use vstd::slice::slice_subrange;

use crate::bytes::{find, has_prefix, lemma_find};
use crate::discord::error::Error;
use crate::text::{
    chars_of, decimal, find_char, lemma_rfind, number_in, parse_number, range_contains, range_eq,
    rfind, rfind_char, str_eq, string_of_range, with_number,
};

verus! {

pub const OP_DISPATCH: u8 = 0;

pub const OP_HEARTBEAT: u8 = 1;

pub const OP_IDENTIFY: u8 = 2;

pub const OP_RESUME: u8 = 6;

pub const OP_RECONNECT: u8 = 7;

pub const OP_INVALID_SESSION: u8 = 9;

pub const OP_HELLO: u8 = 10;

pub const OP_HEARTBEAT_ACK: u8 = 11;

/// The parts of a `wss://` URL.
#[derive(Debug)]
pub struct GatewayUrl {
    pub host: String,
    pub port: u16,
    pub path: String,
}

/// The parts of a URL as text.
pub struct UrlParts {
    pub host: Seq<char>,
    pub port: nat,
    pub path: Seq<char>,
}

/// The host and port of a URL's authority: the port follows the last colon and
/// is 443 if there is none; the host must not be empty, and neither a query
/// nor a bracketed address is accepted.
pub open spec fn authority_parts(authority: Seq<char>) -> Option<(Seq<char>, nat)> {
    let colon = rfind(authority, ':');
    if authority.contains('?') || authority.contains('[') {
        None
    } else if colon < 0 {
        if authority.len() == 0 {
            None
        } else {
            Some((authority, 443))
        }
    } else {
        match parse_number(authority.skip(colon + 1), 65535) {
            Some(port) => if colon == 0 {
                None
            } else {
                Some((authority.take(colon), port))
            },
            None => None,
        }
    }
}

/// The parts of a gateway URL, if it is one.
pub open spec fn url_parts(url: Seq<char>) -> Option<UrlParts> {
    if !has_prefix(url, "wss://"@) {
        None
    } else {
        let rest = url.skip("wss://"@.len() as int);
        let slash = find(rest, '/');
        match authority_parts(rest.take(slash)) {
            Some((host, port)) => Some(
                UrlParts {
                    host,
                    port,
                    path: if slash < rest.len() {
                        rest.skip(slash)
                    } else {
                        "/"@
                    },
                },
            ),
            None => None,
        }
    }
}

/// Take a `wss://` gateway URL apart.
pub fn parse_gateway_url(url: &str) -> (r: Result<GatewayUrl, Error>)
    ensures
        match url_parts(url@) {
            Some(parts) => r matches Ok(u) && u.host@ == parts.host && u.port == parts.port
                && u.path@ == parts.path,
            None => r == Err::<GatewayUrl, Error>(Error::BadResumeUrl),
        },
{
    let scheme = chars_of("wss://");
    let url = chars_of(url);
    let start: usize = scheme.len();
    if url.len() < start || !range_eq(url.as_slice(), 0, start, scheme.as_slice()) {
        assert(url@.len() >= start ==> url@.subrange(0, start as int) =~= url@.take(start as int));
        return Err(Error::BadResumeUrl);
    }
    let ghost rest = url@.skip(start as int);
    assert(url@.subrange(0, start as int) =~= url@.take(start as int));
    let end: usize = find_char(url.as_slice(), '/', start);
    let ghost authority = rest.take(end - start);
    assert(url@.subrange(start as int, end as int) =~= authority);
    if range_contains(url.as_slice(), '?', start, end) || range_contains(
        url.as_slice(),
        '[',
        start,
        end,
    ) {
        return Err(Error::BadResumeUrl);
    }
    let mut host_end: usize = end;
    let mut port: u16 = 443;
    match rfind_char(url.as_slice(), ':', start, end) {
        Some(i) => {
            host_end = start + i;
            let digits = slice_subrange(url.as_slice(), host_end + 1, end);
            assert(digits@ =~= authority.skip(i + 1));
            match number_in(digits, 65535) {
                Some(p) => {
                    port = p as u16;
                },
                None => {
                    return Err(Error::BadResumeUrl);
                },
            }
            assert(url@.subrange(start as int, host_end as int) =~= authority.take(i as int));
        },
        None => {},
    }
    if host_end == start {
        return Err(Error::BadResumeUrl);
    }
    let path = if end < url.len() {
        let path = string_of_range(url.as_slice(), end, url.len());
        assert(path@ =~= rest.skip(end - start));
        path
    } else {
        "/".to_string()
    };
    Ok(GatewayUrl { host: string_of_range(url.as_slice(), start, host_end), port, path })
}

/// What fits into a JSON string without escaping.
pub open spec fn is_json_plain(c: char) -> bool {
    ' ' <= c <= '~' && c != '"' && c != '\\'
}

/// A string that fits into a JSON string without escaping.
pub open spec fn json_plain(s: Seq<char>) -> bool {
    forall|i: int| 0 <= i < s.len() ==> is_json_plain(#[trigger] s[i])
}

/// Whether a string is printable ASCII without `"` and `\`, so that it can be
/// put between quotes in JSON as it is.
pub fn is_safe_for_json_literal(s: &str) -> (r: bool)
    ensures
        r == json_plain(s@),
{
    let chars = chars_of(s);
    let mut i: usize = 0;
    while i < chars.len()
        invariant
            chars@ == s@,
            i <= s@.len(),
            forall|k: int| 0 <= k < i ==> is_json_plain(#[trigger] s@[k]),
        decreases s@.len() - i,
    {
        let c: char = chars[i];
        if c == '"' || c == '\\' || c < ' ' || c > '~' {
            assert(!is_json_plain(s@[i as int]));
            return false;
        }
        i = i + 1;
    }
    true
}

/// Known gateway event types.  Events that are not known are dropped.
#[derive(Debug, Clone, Copy, PartialEq, Eq, Structural)]
pub enum EventType {
    Ready,
    Resumed,
    GuildCreate,
    MessageCreate,
    MessageUpdate,
    MessageDelete,
    ReactionAdd,
    ReactionRemove,
    Unknown,
}

impl EventType {
    /// The event type of that name.
    pub open spec fn named(s: Seq<char>) -> EventType {
        if s == "READY"@ {
            EventType::Ready
        } else if s == "RESUMED"@ {
            EventType::Resumed
        } else if s == "GUILD_CREATE"@ {
            EventType::GuildCreate
        } else if s == "MESSAGE_CREATE"@ {
            EventType::MessageCreate
        } else if s == "MESSAGE_UPDATE"@ {
            EventType::MessageUpdate
        } else if s == "MESSAGE_DELETE"@ {
            EventType::MessageDelete
        } else if s == "MESSAGE_REACTION_ADD"@ {
            EventType::ReactionAdd
        } else if s == "MESSAGE_REACTION_REMOVE"@ {
            EventType::ReactionRemove
        } else {
            EventType::Unknown
        }
    }

    /// The event type of that name.
    pub fn from_name(s: &str) -> (r: Self)
        ensures
            r == EventType::named(s@),
    {
        if str_eq(s, "READY") {
            EventType::Ready
        } else if str_eq(s, "RESUMED") {
            EventType::Resumed
        } else if str_eq(s, "GUILD_CREATE") {
            EventType::GuildCreate
        } else if str_eq(s, "MESSAGE_CREATE") {
            EventType::MessageCreate
        } else if str_eq(s, "MESSAGE_UPDATE") {
            EventType::MessageUpdate
        } else if str_eq(s, "MESSAGE_DELETE") {
            EventType::MessageDelete
        } else if str_eq(s, "MESSAGE_REACTION_ADD") {
            EventType::ReactionAdd
        } else if str_eq(s, "MESSAGE_REACTION_REMOVE") {
            EventType::ReactionRemove
        } else {
            EventType::Unknown
        }
    }
}

/// A gateway payload, its data still in JSON.
#[derive(Debug)]
pub struct GatewayPayload {
    pub op: u8,
    pub data: Option<String>,
    pub sequence: Option<u64>,
    pub event_type: Option<String>,
}

/// A dispatched event, its data still in JSON.  Event type and data may be
/// missing, so that the sequence number counts even where the rest is
/// malformed.
#[derive(Debug)]
pub struct Dispatch {
    pub sequence: u64,
    pub event_type: Option<EventType>,
    pub data: Option<String>,
}

/// What a gateway payload asks for.
#[derive(Debug)]
pub enum GatewayAction {
    Dispatch(Dispatch),
    HeartbeatAck,
    SendHeartbeat,
}

/// What a gateway payload asks for, or the error it stands for.
pub open spec fn payload_action(p: GatewayPayload) -> Result<GatewayAction, Error> {
    if p.op == OP_HEARTBEAT_ACK {
        Ok(GatewayAction::HeartbeatAck)
    } else if p.op == OP_HEARTBEAT {
        Ok(GatewayAction::SendHeartbeat)
    } else if p.op == OP_RECONNECT {
        Err(Error::Reconnect)
    } else if p.op == OP_INVALID_SESSION {
        Err(Error::InvalidSession { resumable: p.data matches Some(d) && d@ == "true"@ })
    } else if p.op == OP_DISPATCH {
        match p.sequence {
            Some(sequence) => Ok(
                GatewayAction::Dispatch(
                    Dispatch {
                        sequence,
                        event_type: match p.event_type {
                            Some(name) => Some(EventType::named(name@)),
                            None => None,
                        },
                        data: p.data,
                    },
                ),
            ),
            None => Err(Error::MalformedDispatch),
        }
    } else {
        Err(Error::UnexpectedOpcode(p.op))
    }
}

/// What a text message asks for, or the error it stands for.
pub open spec fn text_action(parsed: Result<GatewayPayload, String>) -> Result<
    GatewayAction,
    Error,
> {
    match parsed {
        Ok(p) => payload_action(p),
        Err(e) => Err(Error::Json(e)),
    }
}

/// Turn a text message, parsed as far as JSON goes, into an action.  An opcode
/// that is not known is an error: the opcode table is a closed set.
pub fn process_text(parsed: Result<GatewayPayload, String>) -> (r: Result<GatewayAction, Error>)
    ensures
        r == text_action(parsed),
{
    let payload = match parsed {
        Ok(p) => p,
        Err(e) => {
            return Err(Error::Json(e));
        },
    };
    if payload.op == OP_HEARTBEAT_ACK {
        Ok(GatewayAction::HeartbeatAck)
    } else if payload.op == OP_HEARTBEAT {
        Ok(GatewayAction::SendHeartbeat)
    } else if payload.op == OP_RECONNECT {
        Err(Error::Reconnect)
    } else if payload.op == OP_INVALID_SESSION {
        let resumable: bool = match &payload.data {
            Some(d) => str_eq(d.as_str(), "true"),
            None => false,
        };
        Err(Error::InvalidSession { resumable })
    } else if payload.op == OP_DISPATCH {
        match payload.sequence {
            None => Err(Error::MalformedDispatch),
            Some(sequence) => Ok(
                GatewayAction::Dispatch(
                    Dispatch {
                        sequence,
                        event_type: match &payload.event_type {
                            Some(name) => Some(EventType::from_name(name.as_str())),
                            None => None,
                        },
                        data: payload.data,
                    },
                ),
            ),
        }
    } else {
        Err(Error::UnexpectedOpcode(payload.op))
    }
}

/// Data of a gateway session, kept for resuming it.
#[derive(Debug, Clone)]
pub struct SessData {
    pub session_id: String,
    pub resume_gateway_url: String,
    /// The last dispatch sequence number received.
    pub sequence: u64,
    pub bot_user_id: u64,
    /// Guild IDs from the READY payload.
    pub guild_ids: Vec<u64>,
}

/// Parameters for a fresh IDENTIFY handshake.
#[derive(Debug)]
pub struct ConnectData {
    pub gateway_url: String,
    pub intents: u64,
}

/// Whether to resume an existing session or identify as a new one.
#[derive(Debug)]
pub enum SessionState {
    /// Resume a previous session using saved data.
    Resuming(SessData),
    /// Start a fresh session with an IDENTIFY handshake.
    Identifying(ConnectData),
}

/// The request path, with the gateway version and encoding always present.
pub open spec fn versioned_path(path: Seq<char>) -> Seq<char> {
    if path.contains('?') {
        path
    } else {
        path + "?v=10&encoding=json"@
    }
}

impl SessionState {
    /// The URL to connect to.
    pub open spec fn url(self) -> Seq<char> {
        match self {
            SessionState::Resuming(r) => r.resume_gateway_url@,
            SessionState::Identifying(c) => c.gateway_url@,
        }
    }

    /// Where to connect to: the parts of the URL, the path with the gateway
    /// version and encoding.
    pub fn target(&self) -> (r: Result<GatewayUrl, Error>)
        ensures
            match url_parts(self.url()) {
                Some(parts) => r matches Ok(u) && u.host@ == parts.host && u.port == parts.port
                    && u.path@ == versioned_path(parts.path),
                None => r == Err::<GatewayUrl, Error>(Error::BadResumeUrl),
            },
    {
        let url = match self {
            SessionState::Resuming(r) => r.resume_gateway_url.as_str(),
            SessionState::Identifying(c) => c.gateway_url.as_str(),
        };
        match parse_gateway_url(url) {
            Err(e) => Err(e),
            Ok(parts) => {
                let GatewayUrl { host, port, path } = parts;
                let chars = chars_of(path.as_str());
                let mut path = path;
                assert(chars@.subrange(0, chars@.len() as int) =~= chars@);
                if !range_contains(chars.as_slice(), '?', 0, chars.len()) {
                    path.append("?v=10&encoding=json");
                }
                Ok(GatewayUrl { host, port, path })
            },
        }
    }

    /// The payload that opens the session, or why it cannot be built.
    pub open spec fn opening(self, token: Seq<char>, os: Seq<char>) -> Result<Seq<char>, Error> {
        if !json_plain(token) {
            Err(Error::BadToken)
        } else {
            match self {
                SessionState::Resuming(r) => if !json_plain(r.session_id@) {
                    Err(Error::BadSessionId)
                } else {
                    Ok(
                        "{\"op\":6,\"d\":{\"token\":\""@ + token + "\",\"session_id\":\""@
                            + r.session_id@ + "\",\"seq\":"@ + decimal(r.sequence as nat)
                            + "}}"@,
                    )
                },
                SessionState::Identifying(c) => Ok(
                    "{\"op\":2,\"d\":{\"token\":\""@ + token + "\",\"intents\":"@ + decimal(
                        c.intents as nat,
                    ) + ",\"properties\":{\"os\":\""@ + os
                        + "\",\"browser\":\"discord-bot\",\"device\":\"discord-bot\"}}}"@,
                ),
            }
        }
    }

    /// The RESUME or IDENTIFY payload.  Token and session ID must be such that
    /// they need no escaping.
    pub fn opening_payload(&self, token: &str, os: &str) -> (r: Result<String, Error>)
        ensures
            match self.opening(token@, os@) {
                Ok(text) => r matches Ok(s) && s@ == text,
                Err(e) => r == Err::<String, Error>(e),
            },
    {
        if !is_safe_for_json_literal(token) {
            return Err(Error::BadToken);
        }
        match self {
            SessionState::Resuming(resume) => {
                if !is_safe_for_json_literal(resume.session_id.as_str()) {
                    return Err(Error::BadSessionId);
                }
                let mut s = "{\"op\":6,\"d\":{\"token\":\"".to_string();
                s.append(token);
                s.append("\",\"session_id\":\"");
                s.append(resume.session_id.as_str());
                s.append("\",\"seq\":");
                let mut s = with_number(s.as_str(), resume.sequence);
                s.append("}}");
                Ok(s)
            },
            SessionState::Identifying(connect) => {
                let mut s = "{\"op\":2,\"d\":{\"token\":\"".to_string();
                s.append(token);
                s.append("\",\"intents\":");
                let mut s = with_number(s.as_str(), connect.intents);
                s.append(",\"properties\":{\"os\":\"");
                s.append(os);
                s.append("\",\"browser\":\"discord-bot\",\"device\":\"discord-bot\"}}}");
                Ok(s)
            },
        }
    }
}

/// The parts of an accepted URL can be used as they are: there is a host, the
/// port is one, and the path is a request target.
pub proof fn law_url_parts_are_usable(url: Seq<char>)
    requires
        url_parts(url) is Some,
    ensures
        url_parts(url)->0.host.len() > 0,
        url_parts(url)->0.port <= 65535,
        url_parts(url)->0.path.len() > 0,
        url_parts(url)->0.path[0] == '/',
        versioned_path(url_parts(url)->0.path).contains('?'),
        versioned_path(url_parts(url)->0.path)[0] == '/',
{
    reveal_strlit("/");
    reveal_strlit("?v=10&encoding=json");
    let rest = url.skip("wss://"@.len() as int);
    lemma_find(rest, '/');
    let parts = url_parts(url)->0;
    if !parts.path.contains('?') {
        let full = versioned_path(parts.path);
        assert(full[parts.path.len() as int] == '?');
    }
    lemma_rfind(rest.take(find(rest, '/')), ':');
}

} // verus!
