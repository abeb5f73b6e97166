//! What a gateway session does for the bot: events are delivered, heartbeats
//! are sent, and what ends a session decides how the next one begins.
use vstd::prelude::*;

use crate::discord::client::{client_step, Client, PollProgress};
use crate::discord::error::Error;
use crate::discord::gateway::{EventType, GatewayPayload, SessData, SessionState};
use crate::discord::message::{Event, Ready};
use crate::discord::session::{
    classify_error, poll_leads_to, session_data, wait_leads_to, AfterSend, ErrorClass, Incoming,
    PollError, PollEvent, PollStep, ReadyEvent, ReadyStep, ReadyWait, Session,
};
use crate::text::decimal;
use crate::ws;

verus! {

/// The data of an event of a known type is parsed as that type, and the event
/// that comes of it is what the poll returns.  The session goes on, and its
/// sequence number is the event's.
pub proof fn law_event_is_delivered(
    s: Session,
    p: GatewayPayload,
    now: u64,
    s1: Session,
    step: PollStep,
    parsed: Event,
    later: u64,
    s2: Session,
    done: PollStep,
    r: PollProgress,
    kept: Option<Session>,
)
    requires
        p.op == 0,
        p.sequence is Some,
        p.event_type is Some,
        p.data is Some,
        poll_leads_to(s, PollEvent::Received(Incoming::Text(Ok(p))), now, s1, step),
        poll_leads_to(s1, PollEvent::Parsed(Ok(parsed)), later, s2, done),
        client_step(s2, done, r, kept),
    ensures
        ({
            let name = p.event_type->0@;
            let data = p.data->0;
            &&& name == "READY"@ ==> step == (PollStep::Parse { event_type: EventType::Ready, data })
            &&& name == "GUILD_CREATE"@ ==> step == (PollStep::Parse {
                event_type: EventType::GuildCreate,
                data,
            })
            &&& name == "MESSAGE_CREATE"@ ==> step == (PollStep::Parse {
                event_type: EventType::MessageCreate,
                data,
            })
            &&& name == "MESSAGE_UPDATE"@ ==> step == (PollStep::Parse {
                event_type: EventType::MessageUpdate,
                data,
            })
            &&& name == "MESSAGE_DELETE"@ ==> step == (PollStep::Parse {
                event_type: EventType::MessageDelete,
                data,
            })
            &&& name == "MESSAGE_REACTION_ADD"@ ==> step == (PollStep::Parse {
                event_type: EventType::ReactionAdd,
                data,
            })
            &&& name == "MESSAGE_REACTION_REMOVE"@ ==> step == (PollStep::Parse {
                event_type: EventType::ReactionRemove,
                data,
            })
            &&& name == "RESUMED"@ ==> step == PollStep::Done(Ok(Some(Event::Resumed)))
        }),
        s1.heartbeat == s.heartbeat,
        s1.data == (SessData { sequence: p.sequence->0, ..s.data }),
        done == PollStep::Done(Ok(Some(parsed))),
        r == PollProgress::Done(Ok(Some(parsed))),
        kept == Some(s1),
{
    lemma_event_names();
}

proof fn lemma_event_names()
    ensures
        "READY"@.len() == 5,
        "RESUMED"@.len() == 7,
        "GUILD_CREATE"@.len() == 12,
        "MESSAGE_CREATE"@.len() == 14,
        "MESSAGE_UPDATE"@.len() == 14,
        "MESSAGE_DELETE"@.len() == 14,
        "MESSAGE_CREATE"@[8] == 'C',
        "MESSAGE_UPDATE"@[8] == 'U',
        "MESSAGE_DELETE"@[8] == 'D',
        "MESSAGE_REACTION_ADD"@.len() == 20,
        "MESSAGE_REACTION_REMOVE"@.len() == 23,
{
    reveal_strlit("READY");
    reveal_strlit("RESUMED");
    reveal_strlit("GUILD_CREATE");
    reveal_strlit("MESSAGE_CREATE");
    reveal_strlit("MESSAGE_UPDATE");
    reveal_strlit("MESSAGE_DELETE");
    reveal_strlit("MESSAGE_REACTION_ADD");
    reveal_strlit("MESSAGE_REACTION_REMOVE");
}

/// An event of a type that is not known is passed over, but its sequence number
/// counts.  So it does where the event is malformed.
pub proof fn law_sequence_always_counts(
    s: Session,
    p: GatewayPayload,
    now: u64,
    s1: Session,
    step: PollStep,
)
    requires
        p.op == 0,
        p.sequence is Some,
        poll_leads_to(s, PollEvent::Received(Incoming::Text(Ok(p))), now, s1, step),
    ensures
        s1.data == (SessData { sequence: p.sequence->0, ..s.data }),
        s1.heartbeat == s.heartbeat,
        p.event_type is None ==> step == PollStep::Done(Err(Error::MalformedDispatch)),
        p.event_type is Some && p.data is None ==> step == PollStep::Done(
            Err(Error::MissingPayload),
        ),
{
}

/// How the gateway's close code decides what follows.  Codes that say that the
/// configuration is wrong (4004 and 4010 to 4014) stop the bot; 4007 and 4009
/// end the session for good, so that a new one is needed; after any other code,
/// or none, the session is resumed as it is.
pub proof fn law_close_code_decides(
    s: Session,
    code: Option<u16>,
    reason: String,
    now: u64,
    s1: Session,
    step: PollStep,
    r: PollProgress,
    kept: Option<Session>,
)
    requires
        poll_leads_to(s, PollEvent::Received(Incoming::Close { code, reason }), now, s1, step),
        client_step(s1, step, r, kept),
    ensures
        kept is None,
        ({
            let error = Error::GatewayClosed { code, reason };
            let fatal = code matches Some(c) && (c == 4004 || c == 4010 || c == 4011 || c == 4012
                || c == 4013 || c == 4014);
            let dead = code matches Some(c) && (c == 4007 || c == 4009);
            &&& fatal ==> r == PollProgress::Done(Err(PollError::Fatal(error)))
            &&& dead ==> r == PollProgress::Done(Err(PollError::Reconnect(error)))
            &&& !fatal && !dead ==> {
                &&& r matches PollProgress::Done(Err(PollError::Resume { error: e, session }))
                &&& e == error
                &&& *session == s.data
            }
        }),
{
}

/// What the other things that end a poll come to.  A lost connection, or the
/// gateway's wish to reconnect (opcode 7), leads to a resume; a session that
/// the gateway calls invalid (opcode 9) is resumed only if it says `true`; what
/// cannot be understood is passed over; and silence is no event.
pub proof fn law_end_of_poll(
    s: Session,
    incoming: Incoming,
    now: u64,
    s1: Session,
    step: PollStep,
    r: PollProgress,
    kept: Option<Session>,
)
    requires
        poll_leads_to(s, PollEvent::Received(incoming), now, s1, step),
        client_step(s1, step, r, kept),
    ensures
        incoming is Idle ==> r == PollProgress::Done(Ok(None)) && kept == Some(s),
        incoming matches Incoming::Failed(e) ==> {
            &&& kept is None
            &&& r matches PollProgress::Done(Err(PollError::Resume { error, session }))
            &&& *session == s.data
            &&& e == ws::error::Error::Reconnect(ws::error::ConnectionError::Closed) ==> error
                == Error::ConnectionClosed
            &&& e != ws::error::Error::Reconnect(ws::error::ConnectionError::Closed) ==> error
                == Error::WebSocket(e)
        },
        incoming is Binary ==> kept == Some(s) && r == PollProgress::Done(
            Err(PollError::Transient(Error::UnexpectedBinary)),
        ),
        incoming matches Incoming::Text(Err(e)) ==> kept == Some(s) && r == PollProgress::Done(
            Err(PollError::Transient(Error::Json(e))),
        ),
        incoming matches Incoming::Text(Ok(p)) ==> {
            &&& p.op == 7 ==> {
                &&& kept is None
                &&& r matches PollProgress::Done(Err(PollError::Resume { error, session }))
                &&& error == Error::Reconnect
                &&& *session == s.data
            }
            &&& p.op == 9 && (p.data matches Some(d) && d@ == "true"@) ==> {
                &&& kept is None
                &&& r matches PollProgress::Done(Err(PollError::Resume { error, session }))
                &&& *session == s.data
            }
            &&& p.op == 9 && !(p.data matches Some(d) && d@ == "true"@) ==> {
                &&& kept is None
                &&& r == PollProgress::Done(
                    Err(PollError::Reconnect(Error::InvalidSession { resumable: false })),
                )
            }
            &&& p.op == 0 && p.sequence is None ==> kept == Some(s) && r == PollProgress::Done(
                Err(PollError::Transient(Error::MalformedDispatch)),
            )
            &&& !(p.op == 0 || p.op == 1 || p.op == 7 || p.op == 9 || p.op == 11) ==> kept
                == Some(s) && r == PollProgress::Done(
                Err(PollError::Transient(Error::UnexpectedOpcode(p.op))),
            )
        },
{
}

/// Heartbeats are sent when they are due, and when the gateway asks for one
/// (opcode 1); they tell the last sequence number.  Until one is due the
/// session reads.  One that is due while the last one is not acknowledged means
/// that the connection is dead: it is resumed elsewhere.
pub proof fn law_heartbeats_are_sent(
    s: Session,
    event: PollEvent,
    now: u64,
    s1: Session,
    step: PollStep,
    r: PollProgress,
    kept: Option<Session>,
)
    requires
        poll_leads_to(s, event, now, s1, step),
        client_step(s1, step, r, kept),
    ensures
        event is Begin ==> {
            let due = now >= s.heartbeat.next_heartbeat;
            &&& due && s.heartbeat.ack_pending ==> {
                &&& kept is None
                &&& r matches PollProgress::Done(Err(PollError::Resume { error, session }))
                &&& error == Error::ConnectionZombied
                &&& *session == s.data
            }
            &&& due && !s.heartbeat.ack_pending ==> {
                &&& r matches PollProgress::Pending(PollStep::Send { text, after })
                &&& text@ == "{\"op\":1,\"d\":"@ + decimal(s.data.sequence as nat) + "}"@
                &&& after == AfterSend::Read
                &&& kept == Some(s)
            }
            &&& !due && !s.heartbeat.ack_pending ==> {
                &&& r matches PollProgress::Pending(PollStep::Read { timeout })
                &&& timeout <= if s.heartbeat.next_heartbeat - now < 1_000_000 {
                    1_000_000
                } else {
                    s.heartbeat.next_heartbeat - now
                }
                &&& kept == Some(s)
            }
        },
        event matches PollEvent::Received(Incoming::Text(Ok(p))) && p.op == 1
            && !s.heartbeat.ack_pending ==> {
            &&& r matches PollProgress::Pending(PollStep::Send { text, after })
            &&& text@ == "{\"op\":1,\"d\":"@ + decimal(s.data.sequence as nat) + "}"@
            &&& kept == Some(s)
        },
{
}

/// A heartbeat that was sent is waited for to be acknowledged, and the next one
/// is due an interval later; opcode 11 acknowledges it.
pub proof fn law_heartbeats_are_acknowledged(
    s: Session,
    after: AfterSend,
    sent: u64,
    s1: Session,
    step: PollStep,
    p: GatewayPayload,
    now: u64,
    s2: Session,
    next: PollStep,
)
    requires
        poll_leads_to(s, PollEvent::Sent { after, result: Ok(()) }, sent, s1, step),
        p.op == 11,
        poll_leads_to(s1, PollEvent::Received(Incoming::Text(Ok(p))), now, s2, next),
        sent + s.heartbeat.interval <= u64::MAX,
    ensures
        s1.data == s.data,
        s1.heartbeat.ack_pending,
        s1.heartbeat.next_heartbeat == sent + s.heartbeat.interval,
        s1.heartbeat.interval == s.heartbeat.interval,
        s2.data == s.data,
        !s2.heartbeat.ack_pending,
        s2.heartbeat.last_ack == now,
        s2.heartbeat.next_heartbeat == s1.heartbeat.next_heartbeat,
        now < s2.heartbeat.next_heartbeat ==> next is Read,
{
}

/// A session that READY established is resumed where READY said: at its URL,
/// with its session ID and the sequence number, by the same bot in the same
/// guilds.
pub proof fn law_ready_session_is_resumed(
    w: ReadyWait,
    sequence: u64,
    ready: Ready,
    now: u64,
    w1: ReadyWait,
    step: ReadyStep,
    token: Seq<char>,
    os: Seq<char>,
)
    requires
        wait_leads_to(w, ReadyEvent::Parsed { sequence, ready: Ok(ready) }, now, w1, step),
    ensures
        step matches ReadyStep::Done(Ok(data)) && {
            let state = SessionState::Resuming(data);
            &&& state.url() == ready.resume_gateway_url@
            &&& state.opening(token, os) matches Ok(text) ==> text
                == "{\"op\":6,\"d\":{\"token\":\""@ + token + "\",\"session_id\":\""@
                + ready.session_id@ + "\",\"seq\":"@ + decimal(sequence as nat) + "}}"@
            &&& data.sequence == sequence
            &&& data.bot_user_id == ready.user.id
            &&& data.guild_ids@.len() == ready.guilds@.len()
            &&& forall|i: int|
                0 <= i < ready.guilds@.len() ==> #[trigger] data.guild_ids@[i] == ready.guilds@[i].id
        },
{
}

/// The session's data are READY's.
pub proof fn law_session_data(ready: Ready, sequence: u64, data: SessData)
    requires
        call_ensures(session_data, (ready, sequence), data),
    ensures
        data.session_id@ == ready.session_id@,
        data.resume_gateway_url@ == ready.resume_gateway_url@,
        data.sequence == sequence,
        data.bot_user_id == ready.user.id,
        forall|id: u64|
            data.guild_ids@.contains(id) <==> exists|i: int|
                0 <= i < ready.guilds@.len() && (#[trigger] ready.guilds@[i]).id == id,
{
    assert forall|id: u64| data.guild_ids@.contains(id) implies exists|i: int|
        0 <= i < ready.guilds@.len() && (#[trigger] ready.guilds@[i]).id == id by {
        let i = choose|i: int| 0 <= i < data.guild_ids@.len() && data.guild_ids@[i] == id;
        assert(ready.guilds@[i].id == id);
    }
    assert forall|id: u64|
        (exists|i: int| 0 <= i < ready.guilds@.len() && (#[trigger] ready.guilds@[i]).id
            == id) implies data.guild_ids@.contains(id) by {
        let i = choose|i: int| 0 <= i < ready.guilds@.len() && (#[trigger] ready.guilds@[i]).id
            == id;
        assert(data.guild_ids@[i] == id);
    }
}

/// How errors are answered: what ends the connection leads to a resume, what
/// cannot be understood is passed over.
pub proof fn law_error_classes(e: &Error, r: ErrorClass)
    requires
        call_ensures(classify_error, (e,), r),
    ensures
        *e is Io || *e is Tls || *e is Rng || *e is WebSocket || *e is ConnectionClosed
            || *e is ConnectionZombied || *e is Reconnect ==> r == ErrorClass::Resume,
        *e is Json || *e is UnexpectedOpcode || *e is UnexpectedBinary || *e is MalformedDispatch
            || *e is MissingPayload ==> r == ErrorClass::Transient,
        *e matches Error::InvalidSession { resumable } ==> r == if resumable {
            ErrorClass::Resume
        } else {
            ErrorClass::Reconnect
        },
{
}

/// A heartbeat that cannot be sent, and data that cannot be parsed, end the
/// poll: the first one with a resume, the second one with the session going on.
pub proof fn law_failures_of_poll(
    s: Session,
    after: AfterSend,
    e: ws::error::Error,
    text: String,
    now: u64,
    s1: Session,
    step: PollStep,
    r: PollProgress,
    kept: Option<Session>,
    s2: Session,
    step2: PollStep,
    r2: PollProgress,
    kept2: Option<Session>,
)
    requires
        poll_leads_to(s, PollEvent::Sent { after, result: Err(e) }, now, s1, step),
        client_step(s1, step, r, kept),
        poll_leads_to(s, PollEvent::Parsed(Err(text)), now, s2, step2),
        client_step(s2, step2, r2, kept2),
    ensures
        kept is None,
        r matches PollProgress::Done(Err(PollError::Resume { error, session })) && error
            == Error::WebSocket(e) && *session == s.data,
        r2 == PollProgress::Done(Err(PollError::Transient(Error::Json(text)))),
        kept2 == Some(s),
{
}

/// A client's poll is its session's: an event that was parsed is what it
/// returns; without a session there is nothing to poll.
pub proof fn law_client_polls(client: &mut Client, event: Event, now: u64, r: PollProgress)
    requires
        call_ensures(Client::poll, (client, PollEvent::Parsed(Ok(event)), now), r),
    ensures
        old(client).session is None ==> r == PollProgress::Done(Err(PollError::NotConnected))
            && final(client).session is None,
        old(client).session is Some ==> r == PollProgress::Done(Ok(Some(event)))
            && final(client).session == old(client).session,
        final(client).token == old(client).token,
{
}

/// Whatever happens, a client's poll follows its session's rules.
pub proof fn law_client_follows_its_session(
    client: &mut Client,
    event: PollEvent,
    now: u64,
    r: PollProgress,
    s: &mut Session,
    step: PollStep,
)
    requires
        call_ensures(Client::poll, (client, event, now), r),
        call_ensures(Session::poll, (s, event, now), step),
    ensures
        poll_leads_to(*old(s), event, now, *final(s), step),
        old(client).session is Some ==> exists|s1: Session, st: PollStep|
            #[trigger] poll_leads_to(old(client).session->0, event, now, s1, st) && client_step(
                s1,
                st,
                r,
                final(client).session,
            ),
{
}

} // verus!
