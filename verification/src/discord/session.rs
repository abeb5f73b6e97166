//! The life of a gateway session: waiting for HELLO and READY, polling for
//! events, and what to do when it ends.
//!
//! A session does no I/O of its own.  Each step says what is to be done next,
//! and the outcome comes back with the event that resumes it.  Times are
//! nanoseconds of one monotonic clock of the caller's.
use vstd::prelude::*;

use crate::discord::error::Error;
use crate::discord::gateway::{
    process_text, text_action, EventType, GatewayAction, GatewayPayload, SessData,
    OP_HELLO,
};
use crate::discord::heartbeat::{elapsed, heartbeat_payload, later, HeartbeatState};
use crate::discord::message::{Event, PartialGuild, Ready};
use crate::text::with_str;
use crate::ws;
use crate::ws::error::ConnectionError;

verus! {

/// Actionable error from polling.  Each variant tells the caller what to do,
/// not just what went wrong.
#[derive(Debug)]
pub enum PollError {
    /// Connection lost but the session is valid for resume.
    Resume { error: Error, session: Box<SessData> },
    /// Session is no longer valid.  Back off, then connect afresh.
    Reconnect(Error),
    /// Configuration error (bad token, invalid intents, etc.).  Do not retry.
    Fatal(Error),
    /// One message could not be processed but the connection is still alive.
    Transient(Error),
    /// No active gateway session.
    NotConnected,
}

impl PollError {
    /// What the error says.
    pub open spec fn text(self) -> Seq<char> {
        match self {
            PollError::Resume { error, .. } => "resume: "@ + error.text(),
            PollError::Reconnect(e) => "reconnect: "@ + e.text(),
            PollError::Fatal(e) => "fatal: "@ + e.text(),
            PollError::Transient(e) => "transient: "@ + e.text(),
            PollError::NotConnected => "not connected"@,
        }
    }

    /// What the error says.
    pub fn message(&self) -> (r: String)
        ensures
            r@ == self.text(),
    {
        match self {
            PollError::Resume { error, .. } => with_str("resume: ", error.message().as_str()),
            PollError::Reconnect(e) => with_str("reconnect: ", e.message().as_str()),
            PollError::Fatal(e) => with_str("fatal: ", e.message().as_str()),
            PollError::Transient(e) => with_str("transient: ", e.message().as_str()),
            PollError::NotConnected => "not connected".to_string(),
        }
    }
}

impl PollError {
    /// What the error that caused this one says.
    pub open spec fn cause(self) -> Option<Seq<char>> {
        match self {
            PollError::Resume { error, .. } => Some(error.text()),
            PollError::Reconnect(e) => Some(e.text()),
            PollError::Fatal(e) => Some(e.text()),
            PollError::Transient(e) => Some(e.text()),
            PollError::NotConnected => None,
        }
    }

    /// What the error that caused this one says.
    pub fn source(&self) -> (r: Option<String>)
        ensures
            match r {
                Some(s) => self.cause() == Some(s@),
                None => self.cause() is None,
            },
    {
        match self {
            PollError::Resume { error, .. } => Some(error.message()),
            PollError::Reconnect(e) => Some(e.message()),
            PollError::Fatal(e) => Some(e.message()),
            PollError::Transient(e) => Some(e.message()),
            PollError::NotConnected => None,
        }
    }
}

/// Close codes that indicate a configuration error: reconnecting with the same
/// parameters will fail again.
pub open spec fn fatal_close_code(code: u16) -> bool {
    code == 4004 || 4010 <= code <= 4014
}

/// Close codes after which the session is dead: only a fresh identify helps.
pub open spec fn non_resumable_close_code(code: u16) -> bool {
    code == 4007 || code == 4009
}

pub fn is_fatal_close_code(code: u16) -> (r: bool)
    ensures
        r == fatal_close_code(code),
{
    code == 4004 || code == 4010 || code == 4011 || code == 4012 || code == 4013 || code == 4014
}

pub fn is_non_resumable_close_code(code: u16) -> (r: bool)
    ensures
        r == non_resumable_close_code(code),
{
    code == 4007 || code == 4009
}

/// The action that an error calls for.
#[derive(Debug, Clone, Copy, PartialEq, Eq, Structural)]
pub enum ErrorClass {
    Fatal,
    Reconnect,
    Resume,
    Transient,
}

/// Errors that polling can give; the others come from connecting or HTTP.
pub open spec fn is_poll_error(e: Error) -> bool {
    match e {
        Error::GatewayClosed { .. } | Error::Reconnect | Error::ConnectionZombied
        | Error::ConnectionClosed | Error::Io(_) | Error::Tls(_) | Error::Rng(_)
        | Error::WebSocket(_) | Error::InvalidSession { .. } | Error::Json(_)
        | Error::UnexpectedOpcode(_) | Error::UnexpectedBinary | Error::MalformedDispatch
        | Error::MissingPayload => true,
        _ => false,
    }
}

/// The action that a poll error calls for.
pub open spec fn error_class(e: Error) -> ErrorClass {
    match e {
        Error::GatewayClosed { code, .. } => match code {
            Some(code) => if fatal_close_code(code) {
                ErrorClass::Fatal
            } else if non_resumable_close_code(code) {
                ErrorClass::Reconnect
            } else {
                ErrorClass::Resume
            },
            None => ErrorClass::Resume,
        },
        Error::InvalidSession { resumable } => if resumable {
            ErrorClass::Resume
        } else {
            ErrorClass::Reconnect
        },
        Error::Json(_) | Error::UnexpectedOpcode(_) | Error::UnexpectedBinary
        | Error::MalformedDispatch | Error::MissingPayload => ErrorClass::Transient,
        _ => ErrorClass::Resume,
    }
}

/// Classify an error by the action the caller should take.
pub fn classify_error(error: &Error) -> (r: ErrorClass)
    requires
        is_poll_error(*error),
    ensures
        r == error_class(*error),
{
    match error {
        Error::GatewayClosed { code, .. } => match code {
            Some(code) => if is_fatal_close_code(*code) {
                ErrorClass::Fatal
            } else if is_non_resumable_close_code(*code) {
                ErrorClass::Reconnect
            } else {
                ErrorClass::Resume
            },
            None => ErrorClass::Resume,
        },
        Error::InvalidSession { resumable } => if *resumable {
            ErrorClass::Resume
        } else {
            ErrorClass::Reconnect
        },
        Error::Json(_) | Error::UnexpectedOpcode(_) | Error::UnexpectedBinary
        | Error::MalformedDispatch | Error::MissingPayload => ErrorClass::Transient,
        _ => ErrorClass::Resume,
    }
}

/// An active gateway session.
#[derive(Debug)]
pub struct Session {
    pub heartbeat: HeartbeatState,
    pub data: SessData,
}

/// What a poll error comes to, and whether the session goes on.
pub open spec fn poll_error_of(error: Error, session: Session, r: PollError, kept: Option<Session>) -> bool {
    match error_class(error) {
        ErrorClass::Fatal => r == PollError::Fatal(error) && kept is None,
        ErrorClass::Reconnect => r == PollError::Reconnect(error) && kept is None,
        ErrorClass::Resume => {
            &&& r matches PollError::Resume { error: e, session: data }
            &&& e == error
            &&& *data == session.data
            &&& kept is None
        },
        ErrorClass::Transient => r == PollError::Transient(error) && kept == Some(session),
    }
}

/// Classify an error from polling.  A disconnect gives the session's data for
/// a resume; after a transient error the session goes on.
pub fn classify_poll_error(error: Error, session: Session) -> (r: (PollError, Option<Session>))
    requires
        is_poll_error(error),
    ensures
        poll_error_of(error, session, r.0, r.1),
{
    match classify_error(&error) {
        ErrorClass::Fatal => (PollError::Fatal(error), None),
        ErrorClass::Reconnect => (PollError::Reconnect(error), None),
        ErrorClass::Resume => {
            let data = Box::new(session.into_resume_data());
            (PollError::Resume { error, session: data }, None)
        },
        ErrorClass::Transient => (PollError::Transient(error), Some(session)),
    }
}

/// What a read on the gateway's WebSocket gave.
#[derive(Debug)]
pub enum Incoming {
    /// A text message, parsed as far as JSON goes, or the parser's error.
    Text(Result<GatewayPayload, String>),
    Binary,
    Close { code: Option<u16>, reason: String },
    Idle,
    Failed(ws::error::Error),
}

/// Where to go on after a heartbeat was sent.
#[derive(Debug, Clone, Copy, PartialEq, Eq, Structural)]
pub enum AfterSend {
    /// Read next.
    Read,
    /// Check the heartbeat again.
    Check,
}

/// What is to be done next.
#[derive(Debug)]
pub enum PollStep {
    /// Send this text, and report with the same `after`.
    Send { text: String, after: AfterSend },
    /// Read with this timeout.
    Read { timeout: u64 },
    /// Parse the event's data.
    Parse { event_type: EventType, data: String },
    /// The poll is over: an event, or silence, or an error.
    Done(Result<Option<Event>, Error>),
}

/// What resumes a session.
#[derive(Debug)]
pub enum PollEvent {
    /// A poll begins.
    Begin,
    Sent { after: AfterSend, result: Result<(), ws::error::Error> },
    Received(Incoming),
    Parsed(Result<Event, String>),
}

/// The error that a failed read is.
pub open spec fn read_error(e: ws::error::Error) -> Error {
    if e == ws::error::Error::Reconnect(ConnectionError::Closed) {
        Error::ConnectionClosed
    } else {
        Error::WebSocket(e)
    }
}

fn read_failure(e: ws::error::Error) -> (r: Error)
    ensures
        r == read_error(e),
{
    match e {
        ws::error::Error::Reconnect(ConnectionError::Closed) => Error::ConnectionClosed,
        e => Error::WebSocket(e),
    }
}

/// The next step is to send a heartbeat if one is due, else `otherwise`; a
/// dead connection is an error.
pub open spec fn top_of_poll(s: Session, now: u64, step: PollStep) -> bool {
    if s.heartbeat.zombied(now) {
        step == PollStep::Done(Err(Error::ConnectionZombied))
    } else if now >= s.heartbeat.next_heartbeat {
        &&& step matches PollStep::Send { text, after }
        &&& text@ == heartbeat_payload(Some(s.data.sequence))
        &&& after == AfterSend::Read
    } else {
        step == (PollStep::Read { timeout: s.heartbeat.spec_poll_timeout(now) })
    }
}

/// What an event does to a session, and what is to be done next.
pub open spec fn poll_leads_to(
    s: Session,
    event: PollEvent,
    now: u64,
    s1: Session,
    step: PollStep,
) -> bool {
    match event {
        PollEvent::Begin => s1 == s && top_of_poll(s, now, step),
        PollEvent::Sent { after, result } => match result {
            Err(e) => s1 == s && step == PollStep::Done(Err(Error::WebSocket(e))),
            Ok(()) => {
                &&& s1 == (Session { heartbeat: s.heartbeat.after_send(now), ..s })
                &&& match after {
                    AfterSend::Read => step == (PollStep::Read {
                        timeout: s1.heartbeat.spec_poll_timeout(now),
                    }),
                    AfterSend::Check => top_of_poll(s1, now, step),
                }
            },
        },
        PollEvent::Received(Incoming::Text(parsed)) => match text_action(parsed) {
            Err(e) => s1 == s && step == PollStep::Done(Err(e)),
            Ok(GatewayAction::HeartbeatAck) => {
                &&& s1 == (Session { heartbeat: s.heartbeat.acked(now), ..s })
                &&& top_of_poll(s1, now, step)
            },
            Ok(GatewayAction::SendHeartbeat) => {
                &&& s1 == s
                &&& if s.heartbeat.backstop_exceeded(now) {
                    step == PollStep::Done(Err(Error::ConnectionZombied))
                } else {
                    &&& step matches PollStep::Send { text, after }
                    &&& text@ == heartbeat_payload(Some(s.data.sequence))
                    &&& after == AfterSend::Check
                }
            },
            // The sequence number counts even where the event is malformed: a
            // resume would replay the same event for ever.
            Ok(GatewayAction::Dispatch(d)) => {
                &&& s1 == (Session { data: SessData { sequence: d.sequence, ..s.data }, ..s })
                &&& match (d.event_type, d.data) {
                    (None, _) => step == PollStep::Done(Err(Error::MalformedDispatch)),
                    (Some(_), None) => step == PollStep::Done(Err(Error::MissingPayload)),
                    (Some(event_type), Some(data)) => if event_type == EventType::Unknown {
                        top_of_poll(s1, now, step)
                    } else if event_type == EventType::Resumed {
                        step == PollStep::Done(Ok(Some(Event::Resumed)))
                    } else {
                        step == (PollStep::Parse { event_type, data })
                    },
                }
            },
        },
        PollEvent::Received(Incoming::Close { code, reason }) => s1 == s && step == PollStep::Done(
            Err(Error::GatewayClosed { code, reason }),
        ),
        PollEvent::Received(Incoming::Binary) => s1 == s && step == PollStep::Done(
            Err(Error::UnexpectedBinary),
        ),
        PollEvent::Received(Incoming::Idle) => s1 == s && step == PollStep::Done(Ok(None)),
        PollEvent::Received(Incoming::Failed(e)) => s1 == s && step == PollStep::Done(
            Err(read_error(e)),
        ),
        PollEvent::Parsed(Ok(event)) => s1 == s && step == PollStep::Done(Ok(Some(event))),
        PollEvent::Parsed(Err(e)) => s1 == s && step == PollStep::Done(Err(Error::Json(e))),
    }
}

impl Session {
    fn top(&self, now: u64) -> (r: PollStep)
        ensures
            top_of_poll(*self, now, r),
    {
        match self.heartbeat.send_if_due(Some(self.data.sequence), now) {
            Err(e) => PollStep::Done(Err(e)),
            Ok(Some(text)) => PollStep::Send { text, after: AfterSend::Read },
            Ok(None) => PollStep::Read { timeout: self.heartbeat.poll_timeout(now) },
        }
    }

    /// Go on polling for the next event, handling heartbeats and control
    /// opcodes on the way.
    pub fn poll(&mut self, event: PollEvent, now: u64) -> (r: PollStep)
        ensures
            poll_leads_to(*old(self), event, now, *final(self), r),
            r matches PollStep::Done(Err(e)) ==> is_poll_error(e),
    {
        match event {
            PollEvent::Begin => self.top(now),
            PollEvent::Sent { after, result } => match result {
                Err(e) => PollStep::Done(Err(Error::WebSocket(e))),
                Ok(()) => {
                    self.heartbeat.send(now);
                    match after {
                        AfterSend::Read => PollStep::Read {
                            timeout: self.heartbeat.poll_timeout(now),
                        },
                        AfterSend::Check => self.top(now),
                    }
                },
            },
            PollEvent::Received(Incoming::Text(parsed)) => match process_text(parsed) {
                Err(e) => PollStep::Done(Err(e)),
                Ok(GatewayAction::HeartbeatAck) => {
                    self.heartbeat.receive_ack(now);
                    self.top(now)
                },
                Ok(GatewayAction::SendHeartbeat) => match self.heartbeat.server_requested(
                    Some(self.data.sequence),
                    now,
                ) {
                    Err(e) => PollStep::Done(Err(e)),
                    Ok(text) => PollStep::Send { text, after: AfterSend::Check },
                },
                Ok(GatewayAction::Dispatch(dispatch)) => {
                    self.data.sequence = dispatch.sequence;
                    let event_type = match dispatch.event_type {
                        Some(event_type) => event_type,
                        None => {
                            return PollStep::Done(Err(Error::MalformedDispatch));
                        },
                    };
                    let data = match dispatch.data {
                        Some(data) => data,
                        None => {
                            return PollStep::Done(Err(Error::MissingPayload));
                        },
                    };
                    if event_type == EventType::Unknown {
                        self.top(now)
                    } else if event_type == EventType::Resumed {
                        PollStep::Done(Ok(Some(Event::Resumed)))
                    } else {
                        PollStep::Parse { event_type, data }
                    }
                },
            },
            PollEvent::Received(Incoming::Close { code, reason }) => PollStep::Done(
                Err(Error::GatewayClosed { code, reason }),
            ),
            PollEvent::Received(Incoming::Binary) => PollStep::Done(Err(Error::UnexpectedBinary)),
            PollEvent::Received(Incoming::Idle) => PollStep::Done(Ok(None)),
            PollEvent::Received(Incoming::Failed(e)) => PollStep::Done(Err(read_failure(e))),
            PollEvent::Parsed(Ok(event)) => PollStep::Done(Ok(Some(event))),
            PollEvent::Parsed(Err(e)) => PollStep::Done(Err(Error::Json(e))),
        }
    }

    /// The session's data for a future resume.  The connection is dropped
    /// without a close frame, which would invalidate the session.
    pub fn into_resume_data(self) -> (r: SessData)
        ensures
            r == self.data,
    {
        self.data
    }
}

/// What HELLO must be: its data, or the error.
pub open spec fn hello_data(incoming: Incoming) -> Result<String, Error> {
    match incoming {
        Incoming::Text(Err(e)) => Err(Error::Json(e)),
        Incoming::Text(Ok(p)) => if p.op != OP_HELLO {
            Err(Error::UnexpectedOpcode(p.op))
        } else {
            match p.data {
                Some(data) => Ok(data),
                None => Err(Error::MissingPayload),
            }
        },
        Incoming::Close { code, reason } => Err(Error::GatewayClosed { code, reason }),
        Incoming::Binary => Err(Error::HelloNotText),
        Incoming::Idle => Err(Error::HandshakeTimeout),
        Incoming::Failed(e) => Err(Error::WebSocket(e)),
    }
}

/// The data of the HELLO payload, which must come first on a connection.
pub fn expect_hello(incoming: Incoming) -> (r: Result<String, Error>)
    ensures
        r == hello_data(incoming),
{
    match incoming {
        Incoming::Text(Err(e)) => Err(Error::Json(e)),
        Incoming::Text(Ok(p)) => {
            if p.op != OP_HELLO {
                return Err(Error::UnexpectedOpcode(p.op));
            }
            match p.data {
                Some(data) => Ok(data),
                None => Err(Error::MissingPayload),
            }
        },
        Incoming::Close { code, reason } => Err(Error::GatewayClosed { code, reason }),
        Incoming::Binary => Err(Error::HelloNotText),
        Incoming::Idle => Err(Error::HandshakeTimeout),
        Incoming::Failed(e) => Err(Error::WebSocket(e)),
    }
}

/// Waiting for READY after IDENTIFY, until the deadline.
#[derive(Debug)]
pub struct ReadyWait {
    pub heartbeat: HeartbeatState,
    pub deadline: u64,
}

/// What is to be done next while READY is waited for.
#[derive(Debug)]
pub enum ReadyStep {
    /// Send this text, and report with the same `after`.
    Send { text: String, after: AfterSend },
    /// Read with this timeout.
    Read { timeout: u64 },
    /// Parse the READY data of the dispatch with that sequence number.
    Parse { sequence: u64, data: String },
    /// The session is established, or the handshake failed.
    Done(Result<SessData, Error>),
}

/// What resumes the wait for READY.
#[derive(Debug)]
pub enum ReadyEvent {
    /// The wait begins.
    Begin,
    Sent { after: AfterSend, result: Result<(), ws::error::Error> },
    Received(Incoming),
    Parsed { sequence: u64, ready: Result<Ready, String> },
}

/// The IDs of some guilds.
pub open spec fn ids_of(guilds: Seq<PartialGuild>) -> Seq<u64> {
    Seq::new(guilds.len(), |i: int| guilds[i].id)
}

/// The session that READY establishes.
pub open spec fn is_session_of(data: SessData, ready: Ready, sequence: u64) -> bool {
    &&& data.session_id == ready.session_id
    &&& data.resume_gateway_url == ready.resume_gateway_url
    &&& data.sequence == sequence
    &&& data.bot_user_id == ready.user.id
    &&& data.guild_ids@ == ids_of(ready.guilds@)
}

/// The session that READY establishes.
pub fn session_data(ready: Ready, sequence: u64) -> (r: SessData)
    ensures
        is_session_of(r, ready, sequence),
{
    let mut guild_ids: Vec<u64> = Vec::new();
    let mut i: usize = 0;
    while i < ready.guilds.len()
        invariant
            i <= ready.guilds@.len(),
            guild_ids@ == ids_of(ready.guilds@).take(i as int),
        decreases ready.guilds@.len() - i,
    {
        guild_ids.push(ready.guilds[i].id);
        i = i + 1;
        assert(guild_ids@ =~= ids_of(ready.guilds@).take(i as int));
    }
    assert(guild_ids@ =~= ids_of(ready.guilds@));
    SessData {
        session_id: ready.session_id,
        resume_gateway_url: ready.resume_gateway_url,
        sequence,
        bot_user_id: ready.user.id,
        guild_ids,
    }
}

/// The next read while waiting: no longer than the heartbeat allows, nor than
/// the deadline.
pub open spec fn ready_read(w: ReadyWait, now: u64, step: ReadyStep) -> bool {
    let remaining = elapsed(now, w.deadline);
    let timeout = w.heartbeat.spec_poll_timeout(now);
    if remaining == 0 {
        step == ReadyStep::Done(Err(Error::HandshakeTimeout))
    } else {
        step == (ReadyStep::Read {
            timeout: if remaining < timeout {
                remaining
            } else {
                timeout
            },
        })
    }
}

/// The next step is to send a heartbeat if one is due, else to read; a dead
/// connection is an error.
pub open spec fn top_of_wait(w: ReadyWait, now: u64, step: ReadyStep) -> bool {
    if w.heartbeat.zombied(now) {
        step == ReadyStep::Done(Err(Error::ConnectionZombied))
    } else if now >= w.heartbeat.next_heartbeat {
        &&& step matches ReadyStep::Send { text, after }
        &&& text@ == heartbeat_payload(None)
        &&& after == AfterSend::Read
    } else {
        ready_read(w, now, step)
    }
}

/// What an event does to the wait for READY, and what is to be done next.
pub open spec fn wait_leads_to(
    w: ReadyWait,
    event: ReadyEvent,
    now: u64,
    w1: ReadyWait,
    step: ReadyStep,
) -> bool {
    match event {
        ReadyEvent::Begin => w1 == w && top_of_wait(w, now, step),
        ReadyEvent::Sent { after, result } => match result {
            Err(e) => w1 == w && step == ReadyStep::Done(Err(Error::WebSocket(e))),
            Ok(()) => {
                &&& w1 == (ReadyWait { heartbeat: w.heartbeat.after_send(now), ..w })
                &&& match after {
                    AfterSend::Read => ready_read(w1, now, step),
                    AfterSend::Check => top_of_wait(w1, now, step),
                }
            },
        },
        ReadyEvent::Received(Incoming::Text(parsed)) => match text_action(parsed) {
            Err(e) => w1 == w && step == ReadyStep::Done(Err(e)),
            Ok(GatewayAction::HeartbeatAck) => {
                &&& w1 == (ReadyWait { heartbeat: w.heartbeat.acked(now), ..w })
                &&& top_of_wait(w1, now, step)
            },
            Ok(GatewayAction::SendHeartbeat) => {
                &&& w1 == w
                &&& if w.heartbeat.backstop_exceeded(now) {
                    step == ReadyStep::Done(Err(Error::ConnectionZombied))
                } else {
                    &&& step matches ReadyStep::Send { text, after }
                    &&& text@ == heartbeat_payload(None)
                    &&& after == AfterSend::Check
                }
            },
            Ok(GatewayAction::Dispatch(d)) => {
                &&& w1 == w
                &&& match (d.event_type, d.data) {
                    (None, _) => step == ReadyStep::Done(Err(Error::MalformedDispatch)),
                    (Some(_), None) => step == ReadyStep::Done(Err(Error::MissingPayload)),
                    (Some(event_type), Some(data)) => if event_type != EventType::Ready {
                        step == ReadyStep::Done(Err(Error::UnexpectedHandshakeDispatch))
                    } else {
                        step == (ReadyStep::Parse { sequence: d.sequence, data })
                    },
                }
            },
        },
        ReadyEvent::Received(Incoming::Close { code, reason }) => w1 == w && step
            == ReadyStep::Done(Err(Error::GatewayClosed { code, reason })),
        ReadyEvent::Received(Incoming::Binary) => w1 == w && step == ReadyStep::Done(
            Err(Error::UnexpectedBinary),
        ),
        // Silence: a heartbeat that is due is sent before the next check.
        ReadyEvent::Received(Incoming::Idle) => w1 == w && if !w.heartbeat.zombied(now) && now
            >= w.heartbeat.next_heartbeat {
            &&& step matches ReadyStep::Send { text, after }
            &&& text@ == heartbeat_payload(None)
            &&& after == AfterSend::Check
        } else {
            top_of_wait(w, now, step)
        },
        ReadyEvent::Received(Incoming::Failed(e)) => w1 == w && step == ReadyStep::Done(
            Err(read_error(e)),
        ),
        ReadyEvent::Parsed { sequence, ready } => w1 == w && match ready {
            Ok(ready) => step matches ReadyStep::Done(Ok(data)) && is_session_of(
                data,
                ready,
                sequence,
            ),
            Err(e) => step == ReadyStep::Done(Err(Error::Json(e))),
        },
    }
}

impl ReadyWait {
    /// Begin to wait: for as long as an acknowledgement may be outstanding.
    pub fn new(heartbeat: HeartbeatState, now: u64) -> (r: Self)
        ensures
            r == (ReadyWait {
                heartbeat,
                deadline: later(now, heartbeat.spec_backstop_window()),
            }),
    {
        let deadline: u64 = now.saturating_add(heartbeat.backstop_window());
        ReadyWait { heartbeat, deadline }
    }

    fn read(&self, now: u64) -> (r: ReadyStep)
        ensures
            ready_read(*self, now, r),
    {
        let remaining: u64 = self.deadline.saturating_sub(now);
        if remaining == 0 {
            return ReadyStep::Done(Err(Error::HandshakeTimeout));
        }
        let timeout: u64 = self.heartbeat.poll_timeout(now);
        ReadyStep::Read {
            timeout: if remaining < timeout {
                remaining
            } else {
                timeout
            },
        }
    }

    fn top(&self, now: u64) -> (r: ReadyStep)
        ensures
            top_of_wait(*self, now, r),
    {
        match self.heartbeat.send_if_due(None, now) {
            Err(e) => ReadyStep::Done(Err(e)),
            Ok(Some(text)) => ReadyStep::Send { text, after: AfterSend::Read },
            Ok(None) => self.read(now),
        }
    }

    /// Go on waiting for READY.
    pub fn step(&mut self, event: ReadyEvent, now: u64) -> (r: ReadyStep)
        ensures
            wait_leads_to(*old(self), event, now, *final(self), r),
    {
        match event {
            ReadyEvent::Begin => self.top(now),
            ReadyEvent::Sent { after, result } => match result {
                Err(e) => ReadyStep::Done(Err(Error::WebSocket(e))),
                Ok(()) => {
                    self.heartbeat.send(now);
                    match after {
                        AfterSend::Read => self.read(now),
                        AfterSend::Check => self.top(now),
                    }
                },
            },
            ReadyEvent::Received(Incoming::Text(parsed)) => match process_text(parsed) {
                Err(e) => ReadyStep::Done(Err(e)),
                Ok(GatewayAction::HeartbeatAck) => {
                    self.heartbeat.receive_ack(now);
                    self.top(now)
                },
                Ok(GatewayAction::SendHeartbeat) => match self.heartbeat.server_requested(
                    None,
                    now,
                ) {
                    Err(e) => ReadyStep::Done(Err(e)),
                    Ok(text) => ReadyStep::Send { text, after: AfterSend::Check },
                },
                Ok(GatewayAction::Dispatch(dispatch)) => {
                    let event_type = match dispatch.event_type {
                        Some(event_type) => event_type,
                        None => {
                            return ReadyStep::Done(Err(Error::MalformedDispatch));
                        },
                    };
                    let data = match dispatch.data {
                        Some(data) => data,
                        None => {
                            return ReadyStep::Done(Err(Error::MissingPayload));
                        },
                    };
                    if event_type != EventType::Ready {
                        return ReadyStep::Done(Err(Error::UnexpectedHandshakeDispatch));
                    }
                    ReadyStep::Parse { sequence: dispatch.sequence, data }
                },
            },
            ReadyEvent::Received(Incoming::Close { code, reason }) => ReadyStep::Done(
                Err(Error::GatewayClosed { code, reason }),
            ),
            ReadyEvent::Received(Incoming::Binary) => ReadyStep::Done(
                Err(Error::UnexpectedBinary),
            ),
            ReadyEvent::Received(Incoming::Idle) => match self.heartbeat.send_if_due(None, now) {
                Err(e) => ReadyStep::Done(Err(e)),
                Ok(Some(text)) => ReadyStep::Send { text, after: AfterSend::Check },
                Ok(None) => self.top(now),
            },
            ReadyEvent::Received(Incoming::Failed(e)) => ReadyStep::Done(Err(read_failure(e))),
            ReadyEvent::Parsed { sequence, ready } => match ready {
                Ok(ready) => ReadyStep::Done(Ok(session_data(ready, sequence))),
                Err(e) => ReadyStep::Done(Err(Error::Json(e))),
            },
        }
    }
}

/// READY is not waited for beyond the deadline: no read begins after it, and
/// none may last beyond it.
pub proof fn law_ready_wait_is_bounded(w: ReadyWait, now: u64, step: ReadyStep)
    requires
        top_of_wait(w, now, step) || ready_read(w, now, step),
    ensures
        now >= w.deadline ==> !(step is Read),
        step matches ReadyStep::Read { timeout } ==> now + timeout <= w.deadline,
{
}

/// An error that says the session is dead is never answered with a resume, and
/// one that says the configuration is wrong is never answered with a retry.
pub proof fn law_poll_errors(error: Error, session: Session, r: PollError, kept: Option<Session>)
    requires
        poll_error_of(error, session, r, kept),
    ensures
        kept is Some <==> r is Transient,
        r matches PollError::Resume { error: e, session: data } ==> *data == session.data && !(
        e matches Error::InvalidSession { resumable: false }),
        error matches Error::GatewayClosed { code: Some(code), .. } && fatal_close_code(code)
            ==> r is Fatal,
        error matches Error::GatewayClosed { code: Some(code), .. } && non_resumable_close_code(
            code,
        ) ==> r is Reconnect,
{
}

} // verus!
