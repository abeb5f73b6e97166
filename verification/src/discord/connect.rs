//! Connecting to the gateway: open the connection, await HELLO, send RESUME or
//! IDENTIFY, and, for a fresh session, await READY.
use vstd::prelude::*;

use crate::discord::error::Error;
use crate::discord::gateway::{url_parts, versioned_path, GatewayUrl, SessionState};
use crate::discord::heartbeat::{later, HeartbeatState, MAX_HEARTBEAT_INTERVAL_MS, MILLISECOND};
use crate::discord::session::{
    expect_hello, hello_data, wait_leads_to, Incoming, ReadyEvent, ReadyStep, ReadyWait, Session,
};
use crate::ws;

verus! {

/// How far a connection attempt has come.
#[derive(Debug)]
pub enum Stage {
    /// Nothing has been done.
    New,
    /// The WebSocket connection is being opened.
    Opening,
    /// HELLO is awaited.
    Hello,
    /// The data of HELLO is being parsed.
    HelloData,
    /// The opening payload is being sent.
    Sending { interval_ms: u64 },
    /// A random delay is being drawn.
    Jitter { interval_ms: u64 },
    /// READY is awaited.
    Ready(ReadyWait),
}

/// A connection attempt.
#[derive(Debug)]
pub struct Connecting {
    pub token: String,
    /// The operating system's name.
    pub os: String,
    pub state: SessionState,
    pub stage: Stage,
}

/// What is to be done next.
#[derive(Debug)]
pub enum ConnectStep {
    /// Open a WebSocket connection to this place.
    Open(GatewayUrl),
    /// Read a message.
    Read,
    /// Parse the data of HELLO: the heartbeat interval in milliseconds.
    ParseHello(String),
    /// Send this text.
    Send(String),
    /// Draw a random delay of up to this interval for the first heartbeat.
    DrawDelay { interval_ms: u64 },
    /// What the wait for READY asks for.
    Wait(ReadyStep),
}

/// What resumes a connection attempt.
#[derive(Debug)]
pub enum ConnectEvent {
    Begin,
    Opened(Result<(), Error>),
    Received(Incoming),
    HelloParsed(Result<u64, String>),
    Sent(Result<(), ws::error::Error>),
    /// The delay in nanoseconds, or what the random number source reported.
    Delay(Result<u64, String>),
    Wait(ReadyEvent),
}

/// Where a connection attempt stands.
#[derive(Debug)]
pub enum ConnectProgress {
    Pending(Connecting, ConnectStep),
    Done(Result<Session, Error>),
}

/// The event is one that the stage waits for.
pub open spec fn event_fits(stage: Stage, event: ConnectEvent) -> bool {
    match stage {
        Stage::New => event is Begin,
        Stage::Opening => event is Opened,
        Stage::Hello => event is Received,
        Stage::HelloData => event is HelloParsed,
        Stage::Sending { .. } => event is Sent,
        Stage::Jitter { .. } => event is Delay,
        Stage::Ready(_) => event is Wait,
    }
}

/// The attempt goes on at another stage.
pub open spec fn goes_on(
    c: Connecting,
    stage: Stage,
    step: ConnectStep,
    r: ConnectProgress,
) -> bool {
    r == ConnectProgress::Pending(Connecting { stage, ..c }, step)
}

/// The attempt has failed.
pub open spec fn fails(e: Error, r: ConnectProgress) -> bool {
    r == ConnectProgress::Done(Err(e))
}

/// What the wait for READY asks for is what is to be done next, until it is
/// over.
pub open spec fn waits(c: Connecting, w: ReadyWait, step: ReadyStep, r: ConnectProgress) -> bool {
    match step {
        ReadyStep::Done(Ok(data)) => r == ConnectProgress::Done(
            Ok(Session { heartbeat: w.heartbeat, data }),
        ),
        ReadyStep::Done(Err(e)) => fails(e, r),
        step => goes_on(c, Stage::Ready(w), ConnectStep::Wait(step), r),
    }
}

/// The heartbeat of a connection that begins now.
pub open spec fn first_heartbeat(interval_ms: u64, delay: u64, now: u64) -> HeartbeatState {
    HeartbeatState {
        interval: (interval_ms * MILLISECOND) as u64,
        next_heartbeat: later(now, delay),
        ack_pending: false,
        last_ack: now,
    }
}

/// What an event does to a connection attempt.
pub open spec fn connect_leads_to(
    c: Connecting,
    event: ConnectEvent,
    now: u64,
    r: ConnectProgress,
) -> bool {
    match (c.stage, event) {
        (Stage::New, ConnectEvent::Begin) => match url_parts(c.state.url()) {
            None => fails(Error::BadResumeUrl, r),
            Some(parts) => {
                &&& r matches ConnectProgress::Pending(c1, ConnectStep::Open(url))
                &&& c1 == (Connecting { stage: Stage::Opening, ..c })
                &&& url.host@ == parts.host
                &&& url.port == parts.port
                &&& url.path@ == versioned_path(parts.path)
            },
        },
        (Stage::Opening, ConnectEvent::Opened(result)) => match result {
            Err(e) => fails(e, r),
            Ok(()) => goes_on(c, Stage::Hello, ConnectStep::Read, r),
        },
        (Stage::Hello, ConnectEvent::Received(incoming)) => match hello_data(incoming) {
            Err(e) => fails(e, r),
            Ok(data) => goes_on(c, Stage::HelloData, ConnectStep::ParseHello(data), r),
        },
        (Stage::HelloData, ConnectEvent::HelloParsed(result)) => match result {
            Err(e) => fails(Error::Json(e), r),
            Ok(interval_ms) => match c.state.opening(c.token@, c.os@) {
                Err(e) => fails(e, r),
                Ok(text) => {
                    &&& r matches ConnectProgress::Pending(c1, ConnectStep::Send(s))
                    &&& c1 == (Connecting { stage: Stage::Sending { interval_ms }, ..c })
                    &&& s@ == text
                },
            },
        },
        (Stage::Sending { interval_ms }, ConnectEvent::Sent(result)) => match result {
            Err(e) => fails(Error::WebSocket(e), r),
            Ok(()) => goes_on(
                c,
                Stage::Jitter { interval_ms },
                ConnectStep::DrawDelay { interval_ms },
                r,
            ),
        },
        (Stage::Jitter { interval_ms }, ConnectEvent::Delay(result)) => match result {
            Err(e) => fails(Error::Rng(e), r),
            Ok(delay) => if interval_ms == 0 || interval_ms > MAX_HEARTBEAT_INTERVAL_MS {
                fails(Error::BadHeartbeatInterval(interval_ms), r)
            } else {
                let heartbeat = first_heartbeat(interval_ms, delay, now);
                match c.state {
                    SessionState::Resuming(data) => r == ConnectProgress::Done(
                        Ok(Session { heartbeat, data }),
                    ),
                    SessionState::Identifying(_) => {
                        let w = ReadyWait {
                            heartbeat,
                            deadline: later(now, heartbeat.spec_backstop_window()),
                        };
                        exists|w1: ReadyWait, step: ReadyStep|
                            #[trigger] wait_leads_to(w, ReadyEvent::Begin, now, w1, step) && waits(
                                c,
                                w1,
                                step,
                                r,
                            )
                    },
                }
            },
        },
        (Stage::Ready(w), ConnectEvent::Wait(event)) => exists|w1: ReadyWait, step: ReadyStep|
            #[trigger] wait_leads_to(w, event, now, w1, step) && waits(c, w1, step, r),
        _ => true,
    }
}

impl Session {
    /// Go on connecting.
    pub fn connect(c: Connecting, event: ConnectEvent, now: u64) -> (r: ConnectProgress)
        requires
            event_fits(c.stage, event),
        ensures
            connect_leads_to(c, event, now, r),
    {
        let Connecting { token, os, state, stage } = c;
        match (stage, event) {
            (Stage::New, _) => match state.target() {
                Err(e) => ConnectProgress::Done(Err(e)),
                Ok(url) => ConnectProgress::Pending(
                    Connecting { token, os, state, stage: Stage::Opening },
                    ConnectStep::Open(url),
                ),
            },
            (Stage::Opening, ConnectEvent::Opened(result)) => match result {
                Err(e) => ConnectProgress::Done(Err(e)),
                Ok(()) => ConnectProgress::Pending(
                    Connecting { token, os, state, stage: Stage::Hello },
                    ConnectStep::Read,
                ),
            },
            (Stage::Hello, ConnectEvent::Received(incoming)) => match expect_hello(incoming) {
                Err(e) => ConnectProgress::Done(Err(e)),
                Ok(data) => ConnectProgress::Pending(
                    Connecting { token, os, state, stage: Stage::HelloData },
                    ConnectStep::ParseHello(data),
                ),
            },
            (Stage::HelloData, ConnectEvent::HelloParsed(result)) => match result {
                Err(e) => ConnectProgress::Done(Err(Error::Json(e))),
                Ok(interval_ms) => match state.opening_payload(token.as_str(), os.as_str()) {
                    Err(e) => ConnectProgress::Done(Err(e)),
                    Ok(text) => ConnectProgress::Pending(
                        Connecting { token, os, state, stage: Stage::Sending { interval_ms } },
                        ConnectStep::Send(text),
                    ),
                },
            },
            (Stage::Sending { interval_ms }, ConnectEvent::Sent(result)) => match result {
                Err(e) => ConnectProgress::Done(Err(Error::WebSocket(e))),
                Ok(()) => ConnectProgress::Pending(
                    Connecting { token, os, state, stage: Stage::Jitter { interval_ms } },
                    ConnectStep::DrawDelay { interval_ms },
                ),
            },
            (Stage::Jitter { interval_ms }, ConnectEvent::Delay(result)) => {
                let delay: u64 = match result {
                    Err(e) => {
                        return ConnectProgress::Done(Err(Error::Rng(e)));
                    },
                    Ok(delay) => delay,
                };
                let heartbeat = match HeartbeatState::new(interval_ms, delay, now) {
                    Err(e) => {
                        return ConnectProgress::Done(Err(e));
                    },
                    Ok(heartbeat) => heartbeat,
                };
                match state {
                    SessionState::Resuming(data) => ConnectProgress::Done(
                        Ok(Session { heartbeat, data }),
                    ),
                    SessionState::Identifying(data) => {
                        let mut wait = ReadyWait::new(heartbeat, now);
                        let ghost before = wait;
                        let step = wait.step(ReadyEvent::Begin, now);
                        assert(wait_leads_to(before, ReadyEvent::Begin, now, wait, step));
                        Connecting {
                            token,
                            os,
                            state: SessionState::Identifying(data),
                            stage: Stage::New,
                        }.waiting(wait, step)
                    },
                }
            },
            (Stage::Ready(wait), ConnectEvent::Wait(event)) => {
                let mut wait = wait;
                let ghost before = wait;
                let step = wait.step(event, now);
                assert(wait_leads_to(before, event, now, wait, step));
                Connecting { token, os, state, stage: Stage::New }.waiting(wait, step)
            },
            (stage, _) => ConnectProgress::Pending(
                Connecting { token, os, state, stage },
                ConnectStep::Read,
            ),
        }
    }
}

impl Connecting {
    /// Begin a connection attempt.
    pub fn new(token: String, os: String, state: SessionState) -> (r: Self)
        ensures
            r == (Connecting { token, os, state, stage: Stage::New }),
    {
        Connecting { token, os, state, stage: Stage::New }
    }

    fn waiting(self, wait: ReadyWait, step: ReadyStep) -> (r: ConnectProgress)
        ensures
            waits(self, wait, step, r),
    {
        match step {
            ReadyStep::Done(Ok(data)) => ConnectProgress::Done(
                Ok(Session { heartbeat: wait.heartbeat, data }),
            ),
            ReadyStep::Done(Err(e)) => ConnectProgress::Done(Err(e)),
            step => ConnectProgress::Pending(
                Connecting {
                    token: self.token,
                    os: self.os,
                    state: self.state,
                    stage: Stage::Ready(wait),
                },
                ConnectStep::Wait(step),
            ),
        }
    }
}

} // verus!
