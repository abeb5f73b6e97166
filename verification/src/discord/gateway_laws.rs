//! Further rules of the gateway and the API.
use vstd::prelude::*;
use vstd::utf8::encode_utf8;

use crate::bytes::find_sub;
use crate::discord::api::{percent_bytes, percent_encode};
use crate::discord::chunked::{
    chunk_size, chunk_step, chunks_end, crlf, ChunkModel, ChunkStage, ChunkStop,
};
use crate::discord::client::Client;
use crate::discord::error::Error;
use crate::discord::gateway::{GatewayPayload, SessData};
use crate::discord::heartbeat::{heartbeat_text, HeartbeatState};
use crate::discord::message::Emoji;
use crate::discord::session::{
    is_fatal_close_code, is_non_resumable_close_code, poll_leads_to, Incoming, PollError,
    PollEvent, PollStep, Session,
};
use crate::text::decimal;

verus! {

/// An event of a type that is not known is no event: the session reads on, or
/// sends a heartbeat that is due.
pub proof fn law_unknown_event_is_passed_over(
    s: Session,
    p: GatewayPayload,
    now: u64,
    s1: Session,
    step: PollStep,
)
    requires
        p.op == 0,
        p.sequence is Some,
        p.event_type is Some,
        p.data is Some,
        poll_leads_to(s, PollEvent::Received(Incoming::Text(Ok(p))), now, s1, step),
        p.event_type->0@ != "READY"@,
        p.event_type->0@ != "RESUMED"@,
        p.event_type->0@ != "GUILD_CREATE"@,
        p.event_type->0@ != "MESSAGE_CREATE"@,
        p.event_type->0@ != "MESSAGE_UPDATE"@,
        p.event_type->0@ != "MESSAGE_DELETE"@,
        p.event_type->0@ != "MESSAGE_REACTION_ADD"@,
        p.event_type->0@ != "MESSAGE_REACTION_REMOVE"@,
        !s.heartbeat.ack_pending,
    ensures
        now < s.heartbeat.next_heartbeat ==> step is Read,
        now >= s.heartbeat.next_heartbeat ==> step is Send,
{
}

/// Close codes: those of a wrong configuration, and those of a dead session.
pub proof fn law_close_code_classes(code: u16, fatal: bool, dead: bool)
    requires
        call_ensures(is_fatal_close_code, (code,), fatal),
        call_ensures(is_non_resumable_close_code, (code,), dead),
    ensures
        fatal <==> code == 4004 || code == 4010 || code == 4011 || code == 4012 || code == 4013
            || code == 4014,
        dead <==> code == 4007 || code == 4009,
{
}

/// The heartbeat's rules, in numbers.  The interval is from one millisecond to
/// five minutes; an acknowledgement is waited for until the next heartbeat is
/// due, and never longer than two intervals; a read waits a millisecond at
/// least.
pub proof fn law_heartbeat_numbers(
    interval_ms: u64,
    delay: u64,
    now: u64,
    r: Result<HeartbeatState, Error>,
    h: &HeartbeatState,
    due: Result<bool, Error>,
    timeout: u64,
)
    requires
        call_ensures(HeartbeatState::new, (interval_ms, delay, now), r),
        now + delay <= u64::MAX,
        call_ensures(HeartbeatState::heartbeat_check, (h, now), due),
        call_ensures(HeartbeatState::poll_timeout, (h, now), timeout),
        h.interval <= 300_000_000_000,
    ensures
        1 <= interval_ms <= 300_000 ==> r == Ok::<HeartbeatState, Error>(
            HeartbeatState {
                interval: (interval_ms * 1_000_000) as u64,
                next_heartbeat: (now + delay) as u64,
                ack_pending: false,
                last_ack: now,
            },
        ),
        interval_ms == 0 || interval_ms > 300_000 ==> r == Err::<HeartbeatState, Error>(
            Error::BadHeartbeatInterval(interval_ms),
        ),
        !h.ack_pending ==> due == Ok::<bool, Error>(now >= h.next_heartbeat),
        h.ack_pending && now >= h.next_heartbeat ==> due == Err::<bool, Error>(
            Error::ConnectionZombied,
        ),
        h.ack_pending && now > h.last_ack && now - h.last_ack > 2 * h.interval ==> due == Err::<
            bool,
            Error,
        >(Error::ConnectionZombied),
        h.ack_pending && now < h.next_heartbeat && now - h.last_ack <= 2 * h.interval ==> due
            == Ok::<bool, Error>(false),
        timeout >= 1_000_000,
        !h.ack_pending && h.next_heartbeat >= now + 1_000_000 ==> timeout == h.next_heartbeat - now,
{
}

/// The heartbeat's text.
pub proof fn law_heartbeat_text(sequence: Option<u64>, r: String)
    requires
        call_ensures(heartbeat_text, (sequence,), r),
    ensures
        sequence matches Some(s) ==> r@ == "{\"op\":1,\"d\":"@ + decimal(s as nat) + "}"@,
        sequence is None ==> r@ == "{\"op\":1,\"d\":null}"@,
{
}

/// An emoji as the API writes it: a name, or a name and an ID.
pub proof fn law_emoji_text(emoji: &Emoji, r: String)
    requires
        call_ensures(Emoji::to_text, (emoji,), r),
    ensures
        emoji.name is Some && emoji.id is None ==> r@ == emoji.name->0@,
        emoji.name is Some && emoji.id is Some ==> r@ == emoji.name->0@ + ":"@ + decimal(
            emoji.id->0 as nat,
        ),
        emoji.name is None && emoji.id is Some ==> r@ == "_"@ + decimal(emoji.id->0 as nat),
        emoji.name is None && emoji.id is None ==> r@.len() == 0,
{
}

/// In a path, letters, digits and `-_.~:@` stand for themselves, and any other
/// byte is a percent sign and two digits.
pub proof fn law_percent_encoding(s: Seq<u8>, b: u8, text: &str, r: String)
    requires
        call_ensures(percent_encode, (text,), r),
    ensures
        r@ == percent_bytes(encode_utf8(text@)),
        percent_bytes(Seq::empty()) == Seq::<char>::empty(),
        ({
            let c = b as char;
            let plain = 'A' <= c <= 'Z' || 'a' <= c <= 'z' || '0' <= c <= '9' || c == '-' || c
                == '_' || c == '.' || c == '~' || c == ':' || c == '@';
            let after = percent_bytes(s.push(b));
            &&& plain ==> after == percent_bytes(s) + seq![c]
            &&& !plain ==> after.len() == percent_bytes(s).len() + 3 && after[percent_bytes(
                s,
            ).len() as int] == '%' && after.take(percent_bytes(s).len() as int) == percent_bytes(s)
        }),
{
    assert(s.push(b).drop_last() =~= s);
    let after = percent_bytes(s.push(b));
    assert(after.take(percent_bytes(s).len() as int) =~= percent_bytes(s));
}

/// A chunk that would make the body too large is refused, and so is a size that
/// is no number.  A stream that ends before the last chunk is cut short; one
/// that ends within the trailer is not.
pub proof fn law_bad_chunks(m: ChunkModel, line: Seq<u8>, rest: Seq<u8>)
    requires
        find_sub(m.rest, seq![13u8, 10u8]) == line.len(),
        m.rest == line + seq![13u8, 10u8] + rest,
        m.stage == ChunkStage::Size,
        m.body.len() <= 16 * 1024 * 1024,
    ensures
        ({
            let size = chunk_size(line);
            let (m1, stop) = chunk_step(m);
            &&& size is None ==> stop == Some(ChunkStop::Fail(Error::MalformedChunk))
            &&& size matches Some(n) ==> {
                &&& n > 16 * 1024 * 1024 ==> stop == Some(
                    ChunkStop::Fail(Error::ResponseTooLarge(n as usize)),
                )
                &&& 0 < n <= 16 * 1024 * 1024 && m.body.len() + n > 16 * 1024 * 1024 ==> stop == Some(
                    ChunkStop::Fail(Error::ResponseTooLarge((m.body.len() + n) as usize)),
                )
                &&& n == 0 ==> stop is None && m1.stage == ChunkStage::Trailer && m1.rest == rest
                    && m1.body == m.body
            }
        }),
        chunks_end(m) == Err::<Seq<u8>, Error>(Error::ConnectionClosed),
        chunks_end(ChunkModel { stage: ChunkStage::Trailer, ..m }) == Ok::<Seq<u8>, Error>(m.body),
{
    assert(crlf() =~= seq![13u8, 10u8]);
    assert(m.rest.take(line.len() as int) =~= line);
    assert(m.rest.skip(line.len() as int + 2) =~= rest);
}

/// The client knows who the bot is, and in which guilds, while it is connected.
pub proof fn law_client_knows(
    client: &Client,
    id: Result<u64, Error>,
    guilds: Result<&[u64], Error>,
    s: Session,
    data: SessData,
)
    requires
        call_ensures(Client::bot_user_id, (client,), id),
        call_ensures(Client::guild_ids, (client,), guilds),
        call_ensures(Session::into_resume_data, (s,), data),
    ensures
        client.session is None ==> id == Err::<u64, Error>(Error::NotConnected) && guilds == Err::<
            &[u64],
            Error,
        >(Error::NotConnected),
        client.session matches Some(s) ==> {
            &&& id == Ok::<u64, Error>(s.data.bot_user_id)
            &&& guilds is Ok
            &&& guilds->Ok_0@ == s.data.guild_ids@
        },
        data == s.data,
{
}

/// Errors say what went wrong: the status, the close code and reason, the size
/// or the interval that was given, and the cause behind them.
pub proof fn law_error_messages(e: &Error, r: String, cause: &PollError, p: String)
    requires
        call_ensures(Error::message, (e,), r),
        call_ensures(PollError::message, (cause,), p),
    ensures
        *e matches Error::ApiError { status } ==> r@ == "API error (status "@ + decimal(
            status as nat,
        ) + ")"@,
        *e matches Error::RetriesExhausted { status } ==> r@ == "retries exhausted (last status "@
            + decimal(status as nat) + ")"@,
        *e matches Error::GatewayClosed { code, reason } ==> {
            &&& code is None ==> r@ == "gateway closed (no code)"@
            &&& code is Some && reason@.len() == 0 ==> r@ == "gateway closed (code "@ + decimal(
                code->0 as nat,
            ) + ")"@
            &&& code is Some && reason@.len() > 0 ==> r@ == "gateway closed (code "@ + decimal(
                code->0 as nat,
            ) + "): "@ + reason@
        },
        *e matches Error::ResponseTooLarge(n) ==> r@ == "response too large: "@ + decimal(n as nat)
            + " bytes"@,
        *e matches Error::BadHeartbeatInterval(ms) ==> r@ == "invalid heartbeat interval: "@
            + decimal(ms as nat) + "ms"@,
        *e matches Error::UnexpectedOpcode(op) ==> r@ == "unexpected opcode "@ + decimal(op as nat),
        *e matches Error::Io(io) ==> r@ == "IO: "@ + io.message@,
        *e matches Error::Json(text) ==> r@ == "JSON: "@ + text@,
        *cause matches PollError::Resume { error, .. } ==> p@ == "resume: "@ + error.text(),
        *cause matches PollError::Reconnect(error) ==> p@ == "reconnect: "@ + error.text(),
        *cause matches PollError::Fatal(error) ==> p@ == "fatal: "@ + error.text(),
        *cause matches PollError::Transient(error) ==> p@ == "transient: "@ + error.text(),
        r@ == e.text(),
{
}

} // verus!
