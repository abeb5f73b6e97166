//! The course of a connection attempt, from the URL to the session.
use vstd::prelude::*;

use crate::bytes::{has_prefix, lemma_find_is};
use crate::discord::connect::{
    connect_leads_to, ConnectEvent, ConnectProgress, ConnectStep, Connecting, Stage,
};
use crate::discord::error::Error;
use crate::discord::gateway::{
    parse_gateway_url, url_parts, versioned_path, GatewayPayload, GatewayUrl, SessData,
    SessionState,
};
use crate::discord::heartbeat::HeartbeatState;
use crate::discord::message::Ready;
use crate::discord::session::{
    wait_leads_to, AfterSend, Incoming, ReadyEvent, ReadyStep, ReadyWait, Session,
};
use crate::text::{decimal, is_digit, law_decimal_round_trip, rfind};
use crate::ws;

verus! {

/// A host name as it stands in a URL: none of the characters that end it.
pub open spec fn host_name(host: Seq<char>) -> bool {
    &&& host.len() > 0
    &&& !host.contains('/')
    &&& !host.contains(':')
    &&& !host.contains('?')
    &&& !host.contains('[')
}

proof fn lemma_rfind_none(s: Seq<char>, x: char)
    requires
        !s.contains(x),
    ensures
        rfind(s, x) == -1,
    decreases s.len(),
{
    if s.len() > 0 {
        assert(s.last() == s[s.len() - 1]);
        assert forall|i: int| 0 <= i < s.drop_last().len() implies s.drop_last()[i] != x by {
            assert(s[i] != x);
        }
        lemma_rfind_none(s.drop_last(), x);
    }
}

proof fn lemma_rfind_at(a: Seq<char>, x: char, b: Seq<char>)
    requires
        !b.contains(x),
    ensures
        rfind(a + seq![x] + b, x) == a.len(),
    decreases b.len(),
{
    let s = a + seq![x] + b;
    if b.len() == 0 {
        assert(s.last() == x);
    } else {
        assert(s.last() == b[b.len() - 1]);
        assert(s.drop_last() =~= a + seq![x] + b.drop_last());
        assert forall|i: int| 0 <= i < b.drop_last().len() implies b.drop_last()[i] != x by {
            assert(b[i] != x);
        }
        lemma_rfind_at(a, x, b.drop_last());
    }
}

/// A gateway URL is its host, its port and its path; without a port it is 443,
/// and without a path `/`.
pub proof fn law_url_is_taken_apart(
    host: Seq<char>,
    port: Option<u16>,
    path: Seq<char>,
    r: Result<GatewayUrl, Error>,
    url: &str,
)
    requires
        host_name(host),
        path.len() > 0 ==> path[0] == '/',
        url@ == "wss://"@ + host + (match port {
            Some(port) => seq![':'] + decimal(port as nat),
            None => Seq::empty(),
        }) + path,
        call_ensures(parse_gateway_url, (url,), r),
    ensures
        r matches Ok(u) && {
            &&& u.host@ == host
            &&& u.port == (match port {
                Some(port) => port,
                None => 443,
            })
            &&& u.path@ == (if path.len() > 0 {
                path
            } else {
                "/"@
            })
        },
{
    reveal_strlit("wss://");
    let tail = match port {
        Some(port) => seq![':'] + decimal(port as nat),
        None => Seq::<char>::empty(),
    };
    let authority = host + tail;
    let rest = url@.skip(6);
    assert(url@.take(6) =~= "wss://"@);
    assert(rest =~= authority + path);
    if let Some(port) = port {
        law_decimal_round_trip(port as nat, 65535);
        let d = decimal(port as nat);
        assert forall|i: int| 0 <= i < d.len() implies d[i] != '/' && d[i] != '?' && d[i] != '['
            && d[i] != ':' by {
            assert(is_digit(d[i]));
        }
        lemma_rfind_at(host, ':', d);
        assert(authority =~= host + seq![':'] + d);
        assert(authority.take(host.len() as int) =~= host);
        assert(authority.skip(host.len() as int + 1) =~= d);
        assert forall|i: int| 0 <= i < authority.len() implies authority[i] != '/' && authority[i]
            != '?' && authority[i] != '[' by {
            if i < host.len() {
                assert(host.contains(authority[i]));
            } else if i > host.len() {
                assert(authority[i] == d[i - host.len() - 1]);
            }
        }
    } else {
        assert(authority =~= host);
        lemma_rfind_none(host, ':');
        assert forall|i: int| 0 <= i < authority.len() implies authority[i] != '/' && authority[i]
            != '?' && authority[i] != '[' by {
            assert(host.contains(authority[i]));
        }
    }
    assert forall|k: int| 0 <= k < authority.len() implies rest[k] != '/' by {
        assert(rest[k] == authority[k]);
    }
    lemma_find_is(rest, '/', authority.len() as int);
    assert(rest.take(authority.len() as int) =~= authority);
    assert(rest.skip(authority.len() as int) =~= path);
}

/// A URL that is not `wss://` is refused, and so is one without a host.
pub proof fn law_bad_url_is_refused(url: &str, r: Result<GatewayUrl, Error>)
    requires
        call_ensures(parse_gateway_url, (url,), r),
    ensures
        !("wss://"@.is_prefix_of(url@)) ==> r == Err::<GatewayUrl, Error>(Error::BadResumeUrl),
        url@ == "wss://"@ ==> r == Err::<GatewayUrl, Error>(Error::BadResumeUrl),
{
    reveal_strlit("wss://");
    if has_prefix(url@, "wss://"@) {
        assert(url@.take(6) =~= url@.subrange(0, 6));
    }
    if url@ == "wss://"@ {
        let rest = url@.skip(6);
        assert(rest =~= Seq::<char>::empty());
        assert(rest.take(0) =~= rest);
    }
}

/// The connection asks for version 10 and JSON, at the place that the URL
/// names.
pub proof fn law_connection_is_opened(
    c: Connecting,
    now: u64,
    r: ConnectProgress,
)
    requires
        c.stage is New,
        connect_leads_to(c, ConnectEvent::Begin, now, r),
        url_parts(c.state.url()) is Some,
        !url_parts(c.state.url())->0.path.contains('?'),
    ensures
        c.state matches SessionState::Resuming(d) ==> c.state.url() == d.resume_gateway_url@,
        c.state matches SessionState::Identifying(d) ==> c.state.url() == d.gateway_url@,
        r matches ConnectProgress::Pending(c1, ConnectStep::Open(url)) && {
            let parts = url_parts(c.state.url())->0;
            &&& url.host@ == parts.host
            &&& url.port == parts.port
            &&& url.path@ == parts.path + "?v=10&encoding=json"@
            &&& c1.stage is Opening
            &&& c1.state == c.state
            &&& c1.token == c.token
            &&& c1.os == c.os
        },
{
}

/// HELLO (opcode 10) comes first: its data are parsed, and any other payload
/// fails the attempt.
pub proof fn law_hello_comes_first(
    c: Connecting,
    p: GatewayPayload,
    now: u64,
    r: ConnectProgress,
)
    requires
        c.stage is Hello,
        connect_leads_to(
            c,
            ConnectEvent::Received(Incoming::Text(Ok(p))),
            now,
            r,
        ),
    ensures
        p.op == 10 && p.data is Some ==> {
            &&& r matches ConnectProgress::Pending(c1, ConnectStep::ParseHello(data))
            &&& data == p.data->0
            &&& c1 == (Connecting { stage: Stage::HelloData, ..c })
        },
        p.op == 10 && p.data is None ==> r == ConnectProgress::Done(Err(Error::MissingPayload)),
        p.op != 10 ==> r == ConnectProgress::Done(Err(Error::UnexpectedOpcode(p.op))),
{
}

/// After HELLO the bot says who it is: with the token and the intents for a new
/// session, with the session and the last sequence number for a resume.
pub proof fn law_bot_says_who_it_is(
    c: Connecting,
    interval_ms: u64,
    now: u64,
    r: ConnectProgress,
)
    requires
        c.stage is HelloData,
        connect_leads_to(c, ConnectEvent::HelloParsed(Ok(interval_ms)), now, r),
        forall|i: int|
            0 <= i < c.token@.len() ==> 'a' <= #[trigger] c.token@[i] <= 'z' || 'A' <= c.token@[i]
                <= 'Z' || '0' <= c.token@[i] <= '9' || c.token@[i] == '.' || c.token@[i] == '-'
                || c.token@[i] == '_',
    ensures
        c.state matches SessionState::Identifying(d) ==> {
            &&& r matches ConnectProgress::Pending(c1, ConnectStep::Send(text))
            &&& text@ == "{\"op\":2,\"d\":{\"token\":\""@ + c.token@ + "\",\"intents\":"@ + decimal(
                d.intents as nat,
            ) + ",\"properties\":{\"os\":\""@ + c.os@
                + "\",\"browser\":\"discord-bot\",\"device\":\"discord-bot\"}}}"@
            &&& c1.state == c.state
        },
        c.state matches SessionState::Resuming(d) ==> ((forall|i: int|
            0 <= i < d.session_id@.len() ==> 'a' <= #[trigger] d.session_id@[i] <= 'z' || '0'
                <= d.session_id@[i] <= '9') ==> {
            &&& r matches ConnectProgress::Pending(c1, ConnectStep::Send(text))
            &&& text@ == "{\"op\":6,\"d\":{\"token\":\""@ + c.token@ + "\",\"session_id\":\""@
                + d.session_id@ + "\",\"seq\":"@ + decimal(d.sequence as nat) + "}}"@
            &&& c1.state == c.state
        }),
{
}

/// A token or session ID that would break out of the payload is refused.
pub proof fn law_payload_cannot_be_broken(
    state: SessionState,
    token: Seq<char>,
    os: Seq<char>,
    i: int,
)
    requires
        0 <= i < token.len(),
        token[i] == '"' || token[i] == '\\' || token[i] < ' ' || token[i] > '~',
    ensures
        state.opening(token, os) == Err::<Seq<char>, Error>(Error::BadToken),
{
}

/// The heartbeat has the interval that HELLO gave, from one millisecond to five
/// minutes, and is first due after the delay that was drawn.  A resumed session
/// is then established with its old data; a new one waits for READY for two
/// intervals.
pub proof fn law_session_begins(
    c: Connecting,
    interval_ms: u64,
    delay: u64,
    now: u64,
    r: ConnectProgress,
)
    requires
        c.stage == (Stage::Jitter { interval_ms }),
        connect_leads_to(c, ConnectEvent::Delay(Ok(delay)), now, r),
        now + delay <= u64::MAX,
        now + 2 * 300_000_000_000 <= u64::MAX,
    ensures
        interval_ms == 0 || interval_ms > 300_000 ==> r == ConnectProgress::Done(
            Err(Error::BadHeartbeatInterval(interval_ms)),
        ),
        1 <= interval_ms <= 300_000 ==> {
            let heartbeat = HeartbeatState {
                interval: (interval_ms * 1_000_000) as u64,
                next_heartbeat: (now + delay) as u64,
                ack_pending: false,
                last_ack: now,
            };
            &&& c.state matches SessionState::Resuming(data) ==> r == ConnectProgress::Done(
                Ok(Session { heartbeat, data }),
            )
            &&& c.state is Identifying && delay > 0 ==> {
                &&& r matches ConnectProgress::Pending(c1, ConnectStep::Wait(step))
                &&& c1.stage matches Stage::Ready(w)
                &&& w.heartbeat == heartbeat
                &&& w.deadline == now + 2 * interval_ms * 1_000_000
                &&& step is Read
            }
        },
{
}

/// READY (as a dispatch) establishes the new session; any other dispatch, and a
/// close, fail the attempt.
pub proof fn law_ready_is_taken(
    w: ReadyWait,
    p: GatewayPayload,
    now: u64,
    w1: ReadyWait,
    step: ReadyStep,
)
    requires
        p.op == 0,
        p.sequence is Some,
        p.event_type is Some,
        p.data is Some,
        wait_leads_to(w, ReadyEvent::Received(Incoming::Text(Ok(p))), now, w1, step),
    ensures
        w1 == w,
        p.event_type->0@ == "READY"@ ==> step == (ReadyStep::Parse {
            sequence: p.sequence->0,
            data: p.data->0,
        }),
        p.event_type->0@ != "READY"@ ==> step == ReadyStep::Done(
            Err(Error::UnexpectedHandshakeDispatch),
        ),
{
}

/// The session that READY established is what connecting ends with.
pub proof fn law_ready_ends_connecting(
    c: Connecting,
    w: ReadyWait,
    sequence: u64,
    ready: Ready,
    now: u64,
    r: ConnectProgress,
)
    requires
        c.stage == Stage::Ready(w),
        connect_leads_to(
            c,
            ConnectEvent::Wait(ReadyEvent::Parsed { sequence, ready: Ok(ready) }),
            now,
            r,
        ),
    ensures
        r matches ConnectProgress::Done(Ok(session)) && {
            &&& session.heartbeat == w.heartbeat
            &&& session.data.session_id@ == ready.session_id@
            &&& session.data.resume_gateway_url@ == ready.resume_gateway_url@
            &&& session.data.sequence == sequence
            &&& session.data.bot_user_id == ready.user.id
            &&& SessionState::Resuming(session.data).url() == ready.resume_gateway_url@
        },
{
}

/// While READY is awaited, a close ends the attempt with the gateway's code,
/// which a caller can tell from silence until the deadline.
pub proof fn law_failed_connecting(
    w: ReadyWait,
    incoming: Incoming,
    now: u64,
    w1: ReadyWait,
    step: ReadyStep,
)
    requires
        wait_leads_to(w, ReadyEvent::Received(incoming), now, w1, step),
    ensures
        incoming matches Incoming::Close { code, reason } ==> step == ReadyStep::Done(
            Err(Error::GatewayClosed { code, reason }),
        ),
        incoming is Idle && now >= w.deadline && now < w.heartbeat.next_heartbeat
            && !w.heartbeat.ack_pending ==> step == ReadyStep::Done(Err(Error::HandshakeTimeout)),
        incoming is Idle && now < w.deadline && now < w.heartbeat.next_heartbeat
            && !w.heartbeat.ack_pending ==> {
            &&& step matches ReadyStep::Read { timeout }
            &&& now + timeout <= w.deadline
        },
        incoming is Idle && now >= w.heartbeat.next_heartbeat && !w.heartbeat.ack_pending ==> {
            &&& step matches ReadyStep::Send { text, after }
            &&& text@ == "{\"op\":1,\"d\":null}"@
        },
{
}

/// The attempt goes on step by step: once the connection is open HELLO is read,
/// and once the bot has said who it is a delay is drawn, up to the interval
/// that HELLO gave.  What fails on the way fails the attempt.
pub proof fn law_connecting_goes_on(
    c: Connecting,
    event: ConnectEvent,
    now: u64,
    r: ConnectProgress,
    interval_ms: u64,
)
    requires
        connect_leads_to(c, event, now, r),
    ensures
        c.stage is Opening ==> {
            &&& event == ConnectEvent::Opened(Ok(())) ==> r == ConnectProgress::Pending(
                Connecting { stage: Stage::Hello, ..c },
                ConnectStep::Read,
            )
            &&& event matches ConnectEvent::Opened(Err(e)) ==> r == ConnectProgress::Done(Err(e))
        },
        c.stage is HelloData ==> {
            &&& event matches ConnectEvent::HelloParsed(Err(e)) ==> r == ConnectProgress::Done(
                Err(Error::Json(e)),
            )
            &&& event == ConnectEvent::HelloParsed(Ok(interval_ms)) ==> (
            r matches ConnectProgress::Pending(c1, step) ==> c1.stage == (Stage::Sending {
                interval_ms,
            }))
        },
        c.stage == (Stage::Sending { interval_ms }) ==> {
            &&& event == ConnectEvent::Sent(Ok(())) ==> r == ConnectProgress::Pending(
                Connecting { stage: Stage::Jitter { interval_ms }, ..c },
                ConnectStep::DrawDelay { interval_ms },
            )
            &&& event matches ConnectEvent::Sent(Err(e)) ==> r == ConnectProgress::Done(
                Err(Error::WebSocket(e)),
            )
        },
        c.stage is Jitter ==> (event matches ConnectEvent::Delay(Err(e)) ==> r
            == ConnectProgress::Done(Err(Error::Rng(e)))),
        c.stage is Hello ==> (event matches ConnectEvent::Received(incoming) ==> {
            &&& incoming matches Incoming::Close { code, reason } ==> r == ConnectProgress::Done(
                Err(Error::GatewayClosed { code, reason }),
            )
            &&& incoming is Idle ==> r == ConnectProgress::Done(Err(Error::HandshakeTimeout))
            &&& incoming is Binary ==> r == ConnectProgress::Done(Err(Error::HelloNotText))
        }),
{
}

/// While READY is awaited, heartbeats go on as in a session, without a sequence
/// number, and what the gateway refuses ends the attempt.
pub proof fn law_waiting_for_ready(
    w: ReadyWait,
    p: GatewayPayload,
    now: u64,
    w1: ReadyWait,
    step: ReadyStep,
    after: AfterSend,
    w2: ReadyWait,
    next: ReadyStep,
    e: ws::error::Error,
    w3: ReadyWait,
    failed: ReadyStep,
    text: String,
    w4: ReadyWait,
    unread: ReadyStep,
)
    requires
        wait_leads_to(w, ReadyEvent::Received(Incoming::Text(Ok(p))), now, w1, step),
        wait_leads_to(w, ReadyEvent::Sent { after, result: Ok(()) }, now, w2, next),
        wait_leads_to(w, ReadyEvent::Sent { after, result: Err(e) }, now, w3, failed),
        wait_leads_to(w, ReadyEvent::Parsed { sequence: 0, ready: Err(text) }, now, w4, unread),
        now + w.heartbeat.interval <= u64::MAX,
    ensures
        p.op == 11 && w.heartbeat.ack_pending ==> !w1.heartbeat.ack_pending
            && w1.heartbeat.last_ack == now,
        p.op == 1 && !w.heartbeat.ack_pending ==> (step matches ReadyStep::Send { text: t, after: a }
            && t@ == "{\"op\":1,\"d\":null}"@),
        p.op == 7 ==> step == ReadyStep::Done(Err(Error::Reconnect)),
        p.op == 9 && p.data is None ==> step == ReadyStep::Done(
            Err(Error::InvalidSession { resumable: false }),
        ),
        p.op == 0 && p.sequence is None ==> step == ReadyStep::Done(Err(Error::MalformedDispatch)),
        w2.heartbeat.ack_pending,
        w2.heartbeat.next_heartbeat == now + w.heartbeat.interval,
        w2.deadline == w.deadline && w1.deadline == w.deadline,
        failed == ReadyStep::Done(Err(Error::WebSocket(e))),
        unread == ReadyStep::Done(Err(Error::Json(text))),
{
}

/// A session ID that would break out of the payload is refused; a path that has
/// a query is left as it is.
pub proof fn law_resume_payload(
    data: SessData,
    token: Seq<char>,
    os: Seq<char>,
    i: int,
    path: Seq<char>,
)
    requires
        forall|k: int|
            0 <= k < token.len() ==> ' ' <= #[trigger] token[k] <= '~' && token[k] != '"'
                && token[k] != '\\',
        0 <= i < data.session_id@.len(),
    ensures
        ({
            let c = data.session_id@[i];
            c == '"' || c == '\\' || c < ' ' || c > '~' ==> SessionState::Resuming(data).opening(
                token,
                os,
            ) == Err::<Seq<char>, Error>(Error::BadSessionId)
        }),
        path.contains('?') ==> versioned_path(path) == path,
        !path.contains('?') ==> versioned_path(path) == path + "?v=10&encoding=json"@,
{
}

/// Connecting follows these rules, and so does the wait for READY.
pub proof fn law_connecting_follows_its_rules(
    c: Connecting,
    event: ConnectEvent,
    now: u64,
    r: ConnectProgress,
    w: &mut ReadyWait,
    wait: ReadyEvent,
    step: ReadyStep,
    state: &SessionState,
    token: &str,
    os: &str,
    text: Result<String, Error>,
    place: Result<GatewayUrl, Error>,
)
    requires
        call_ensures(Session::connect, (c, event, now), r),
        call_ensures(ReadyWait::step, (w, wait, now), step),
        call_ensures(SessionState::opening_payload, (state, token, os), text),
        call_ensures(SessionState::target, (state,), place),
    ensures
        connect_leads_to(c, event, now, r),
        wait_leads_to(*old(w), wait, now, *final(w), step),
        match state.opening(token@, os@) {
            Ok(s) => text is Ok && text->Ok_0@ == s,
            Err(e) => text == Err::<String, Error>(e),
        },
        match url_parts(state.url()) {
            Some(parts) => {
                &&& place is Ok
                &&& place->Ok_0.host@ == parts.host
                &&& place->Ok_0.port == parts.port
                &&& place->Ok_0.path@ == versioned_path(parts.path)
            },
            None => place == Err::<GatewayUrl, Error>(Error::BadResumeUrl),
        },
{
}

} // verus!
