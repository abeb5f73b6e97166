//! The rules that a connection is held to: limits, fragments, floods, silence.
use vstd::prelude::*;

use crate::ws::error::{CallerError, ConnectionError, Error};
use crate::ws::frame::server_frame;
use crate::ws::frame_laws::law_server_frame_is_read_back;
use crate::ws::handshake::opt_text;
use crate::ws::io::{IoError, IoErrorKind, Reply, Request};
use crate::ws::proto::{
    flood_after_frame, flood_after_message, run_frames, CloseState, ReadModel, ReadOutcome,
    ReadProgress, ReadTask, Stop,
};
use crate::ws::rng::Rng;
use crate::ws::websocket::{joined, Message, ReadStatus, SendTask, WebSocket};

verus! {

/// A new WebSocket: open, with nothing buffered, and with the limits of 16 MiB
/// for a message, 1 MiB for a buffer, any number of frames, and a flood score
/// of 1000.
pub proof fn law_new_socket<R: Rng>(rng: R, ws: WebSocket<(), R>)
    requires
        call_ensures(WebSocket::<(), R>::new, (rng,), ws),
    ensures
        ws.rng == rng,
        ws.sess.max_payload == 16 * 1024 * 1024,
        ws.sess.max_buf_size == 1024 * 1024,
        ws.sess.frame_budget == usize::MAX,
        ws.sess.max_flood_score == 1000,
        ws.sess.close_state == CloseState::Open,
        ws.sess.ping_deadline is None,
        ws.sess.last_activity is None,
        ws.sess.subprotocols is None,
        ws.bufs.read.pending_bytes().len() == 0,
        ws.bufs.send.unsent_bytes().len() == 0,
{
}

/// Settings out of range are clamped: payloads to 125 bytes at least, buffers
/// to 125, and the budget to one frame.
pub proof fn law_settings<S, R: Rng>(
    ws: WebSocket<S, R>,
    x: usize,
    payload: WebSocket<S, R>,
    buf: WebSocket<S, R>,
    budget: WebSocket<S, R>,
    flood: WebSocket<S, R>,
)
    requires
        call_ensures(WebSocket::<S, R>::max_payload, (ws, x), payload),
        call_ensures(WebSocket::<S, R>::max_buf_size, (ws, x), buf),
        call_ensures(WebSocket::<S, R>::frame_budget, (ws, x), budget),
        call_ensures(WebSocket::<S, R>::max_flood_score, (ws, x), flood),
    ensures
        125 <= x <= isize::MAX ==> payload.sess.max_payload == x,
        x < 125 ==> payload.sess.max_payload == 125,
        x > isize::MAX ==> payload.sess.max_payload == isize::MAX,
        x >= 125 ==> buf.sess.max_buf_size == x,
        x < 125 ==> buf.sess.max_buf_size == 125,
        x >= 1 ==> budget.sess.frame_budget == x,
        x == 0 ==> budget.sess.frame_budget == 1,
        flood.sess.max_flood_score == x,
        payload.sess.max_buf_size == ws.sess.max_buf_size,
        payload.sess.frame_budget == ws.sess.frame_budget,
        payload.sess.max_flood_score == ws.sess.max_flood_score,
        payload.rng == ws.rng && payload.stream == ws.stream,
        buf.sess.max_payload == ws.sess.max_payload,
        budget.sess.max_payload == ws.sess.max_payload,
        flood.sess.max_payload == ws.sess.max_payload,
{
}

/// Subprotocols are offered in the order of preference, with a comma and a space
/// between them.
pub proof fn law_subprotocols<S, R: Rng>(
    ws: WebSocket<S, R>,
    offered: &[&str],
    r: WebSocket<S, R>,
)
    requires
        call_ensures(WebSocket::<S, R>::subprotocols, (ws, offered), r),
    ensures
        offered@.len() == 0 ==> r.sess.subprotocols is None,
        offered@.len() == 1 ==> opt_text(r.sess.subprotocols) == Some(offered@[0]@),
        offered@.len() == 2 ==> opt_text(r.sess.subprotocols) == Some(
            offered@[0]@ + ", "@ + offered@[1]@,
        ),
        offered@.len() > 1 ==> opt_text(r.sess.subprotocols) == Some(
            joined(offered@.drop_last()) + ", "@ + offered@.last()@,
        ),
{
    if offered@.len() == 2 {
        assert(offered@.drop_last() =~= seq![offered@[0]]);
        assert(joined(seq![offered@[0]]) == offered@[0]@);
    }
}

/// Leaving a connection gives the stream back and forgets all of the
/// connection, but not the settings.
pub proof fn law_disconnect<S, R: Rng>(ws: WebSocket<S, R>, r: (WebSocket<(), R>, S))
    requires
        call_ensures(WebSocket::<S, R>::disconnect, (ws,), r),
    ensures
        r.1 == ws.stream,
        r.0.rng == ws.rng,
        r.0.sess.close_state == CloseState::Open,
        r.0.sess.fragment_opcode == 0,
        r.0.sess.flood_score == 0,
        r.0.sess.ping_deadline is None,
        r.0.sess.last_activity is None,
        r.0.sess.negotiated_subprotocol is None,
        r.0.sess.max_payload == ws.sess.max_payload,
        r.0.sess.max_buf_size == ws.sess.max_buf_size,
        r.0.sess.frame_budget == ws.sess.frame_budget,
        r.0.sess.max_flood_score == ws.sess.max_flood_score,
        r.0.sess.subprotocols == ws.sess.subprotocols,
        r.0.bufs.read.pending_bytes().len() == 0,
        r.0.bufs.send.unsent_bytes().len() == 0,
        r.0.bufs.fragment_buf@.len() == 0,
{
}

/// The end of a connection attempt: on success the connected socket as it is, on
/// failure the error, a socket for another attempt, and the stream.
pub proof fn law_connection_attempt_ends<S, R: Rng>(
    ws: WebSocket<S, R>,
    outcome: Result<(), ConnectionError>,
    r: Result<WebSocket<S, R>, (Error, WebSocket<(), R>, S)>,
)
    requires
        call_ensures(WebSocket::<S, R>::finish_connect, (ws, outcome), r),
    ensures
        outcome is Ok ==> r == Ok::<WebSocket<S, R>, (Error, WebSocket<(), R>, S)>(ws),
        outcome matches Err(e) ==> {
            &&& r matches Err((error, fresh, stream))
            &&& error == Error::Reconnect(e)
            &&& stream == ws.stream
            &&& fresh.sess.close_state == CloseState::Open
            &&& fresh.sess.max_payload == ws.sess.max_payload
        },
{
}

/// A read that took in frames but no message is no silence; one that found
/// nothing is, and fails once the ping's deadline has passed; any other failure
/// fails the connection with its cause.
pub proof fn law_read_without_message<S, R: Rng>(
    ws: &mut WebSocket<S, R>,
    outcome: ReadOutcome,
    now: u64,
    r: Result<ReadStatus<'_>, Error>,
)
    requires
        call_ensures(WebSocket::<S, R>::read_message, (ws, outcome, now), r),
    ensures
        outcome is Exhausted || outcome is Heard ==> {
            &&& r == Ok::<ReadStatus, Error>(ReadStatus::Idle)
            &&& final(ws).sess.last_activity == Some(now)
            &&& final(ws).sess.ping_deadline is None
            &&& final(ws).sess.close_state == old(ws).sess.close_state
        },
        outcome matches ReadOutcome::Failed(e) ==> {
            let silent = e matches ConnectionError::Io(io) && (io.kind == IoErrorKind::WouldBlock
                || io.kind == IoErrorKind::TimedOut);
            let late = old(ws).sess.ping_deadline matches Some(d) && now >= d;
            &&& silent && late ==> r == Err::<ReadStatus, Error>(
                Error::Reconnect(ConnectionError::PingTimeout),
            ) && final(ws).sess.close_state == CloseState::Closed
            &&& silent && !late ==> r == Ok::<ReadStatus, Error>(ReadStatus::Idle)
                && final(ws).sess == old(ws).sess
            &&& !silent ==> r == Err::<ReadStatus, Error>(Error::Reconnect(e))
                && final(ws).sess.close_state == CloseState::Closed
        },
        final(ws).bufs == old(ws).bufs,
        final(ws).rng == old(ws).rng,
{
}

/// Fragments must be in order: a continuation needs a message in progress, a
/// new message must not begin before the last one is complete, and a message
/// must not outgrow the limit.  Opcodes that mean nothing are refused.
pub proof fn law_fragments_in_order(
    m: ReadModel,
    fin: bool,
    opcode: u8,
    payload: Seq<u8>,
    rest: Seq<u8>,
    max_payload: usize,
    max_flood: usize,
)
    requires
        opcode < 8,
        125 <= max_payload <= isize::MAX,
        payload.len() <= max_payload,
        m.pending == server_frame(fin, opcode, payload) + rest,
        flood_after_frame(m.flood_score, m.fresh) <= max_flood,
    ensures
        ({
            let (m1, stop) = run_frames(m, max_payload, max_flood);
            &&& opcode == 0 && m.fragment_opcode == 0 ==> stop == Stop::Fail(
                ConnectionError::UnexpectedContinuation,
            )
            &&& opcode == 0 && m.fragment_opcode != 0 && m.fragment.len() + payload.len()
                > max_payload ==> stop == Stop::Fail(
                ConnectionError::FragmentedMessageTooLarge(
                    (m.fragment.len() + payload.len()) as usize,
                ),
            )
            &&& (opcode == 1 || opcode == 2) && m.fragment_opcode != 0 ==> stop == Stop::Fail(
                ConnectionError::DataDuringFragmentation,
            )
            &&& opcode >= 3 ==> stop == Stop::Fail(ConnectionError::UnknownOpcode(opcode))
            &&& (opcode == 1 || opcode == 2) && m.fragment_opcode == 0 && fin ==> stop
                == Stop::Message(opcode, payload) && m1.pending == rest
            &&& opcode == 0 && m.fragment_opcode != 0 && m.fragment.len() + payload.len()
                <= max_payload && fin ==> stop == Stop::Message(
                m.fragment_opcode,
                m.fragment + payload,
            ) && m1.pending == rest && m1.fragment_opcode == 0
            &&& m.budget == 1 && !fin && m.fragment_opcode == 0 && (opcode == 1 || opcode == 2)
                ==> stop == Stop::Exhausted && m1.fragment == payload && m1.fragment_opcode
                == opcode && m1.pending == rest
        }),
{
    let frame = server_frame(fin, opcode, payload);
    law_server_frame_is_read_back(fin, opcode, payload, rest, max_payload);
    assert(m.pending.skip(frame.len() as int) =~= rest);
}

/// Every frame adds one to the flood score; frames that trickle in, 127 bytes
/// or fewer at a time, add nothing; and a complete message takes off one, or one
/// for each 127 bytes.
pub proof fn law_flood_score(score: usize, fresh: int, len: int)
    requires
        0 < score < usize::MAX,
        fresh >= 0,
        len >= 0,
    ensures
        fresh == 0 || fresh > 127 ==> flood_after_frame(score, fresh) == score + 1,
        1 <= fresh <= 127 ==> flood_after_frame(score, fresh) == score,
        len < 254 ==> flood_after_message(score, len) == score - 1,
        len >= 254 && len / 127 <= score ==> flood_after_message(score, len) == score - len / 127,
        len >= 254 && len / 127 > score ==> flood_after_message(score, len) == 0,
{
}

/// A peer that sends many small frames at once is stopped when the score passes
/// the threshold.
pub proof fn law_flood_is_stopped(
    m: ReadModel,
    fin: bool,
    opcode: u8,
    payload: Seq<u8>,
    rest: Seq<u8>,
    max_payload: usize,
    max_flood: usize,
)
    requires
        opcode < 16,
        opcode >= 8 ==> fin && payload.len() <= 125,
        125 <= max_payload <= isize::MAX,
        payload.len() <= max_payload,
        m.pending == server_frame(fin, opcode, payload) + rest,
        m.fresh == 0,
        m.flood_score == max_flood,
        max_flood < usize::MAX,
    ensures
        run_frames(m, max_payload, max_flood).1 == Stop::Fail(ConnectionError::Flood),
{
    law_server_frame_is_read_back(fin, opcode, payload, rest, max_payload);
}

/// A reply that cannot be sent now does not keep the read from going on: a pong
/// stays queued, and a close is delivered all the same.  What an earlier send
/// left is finished first, unless the stream takes nothing now.
pub proof fn law_read_goes_on<S, R: Rng>(
    ws: &mut WebSocket<S, R>,
    task: ReadTask,
    reply: Reply,
    r: ReadProgress,
)
    requires
        call_ensures(WebSocket::<S, R>::resume_read, (ws, task, reply), r),
    ensures
        ({
            let unsent = old(ws).bufs.send.unsent_bytes();
            let unsent1 = final(ws).bufs.send.unsent_bytes();
            &&& task matches ReadTask::Ponging { budget } ==> {
                &&& reply matches Reply::Written(Ok(n)) ==> {
                    &&& 0 < n < unsent.len() ==> r == ReadProgress::Pending(task) && unsent1
                        == unsent.skip(n as int)
                    &&& 0 < n == unsent.len() ==> r == ReadProgress::Pending(
                        ReadTask::PongFlush { budget },
                    ) && unsent1.len() == 0
                }
                &&& reply matches Reply::Written(Err(e)) ==> (e.kind != IoErrorKind::Interrupted
                    ==> r == ReadProgress::Pending(ReadTask::PongFlush { budget }) && unsent1
                    == unsent)
            }
            &&& task matches ReadTask::Closing { code, start, len } ==> {
                &&& reply matches Reply::Written(Err(e)) ==> (e.kind != IoErrorKind::Interrupted
                    ==> r == ReadProgress::Pending(ReadTask::CloseFlush { code, start, len }))
                &&& reply matches Reply::Written(Ok(n)) ==> (0 < n == unsent.len() ==> r
                    == ReadProgress::Pending(ReadTask::CloseFlush { code, start, len }))
            }
            &&& task matches ReadTask::CloseFlush { code, start, len } ==> (
            reply matches Reply::Flushed(_) ==> r == ReadProgress::Done(
                ReadOutcome::Close { code, start, len },
            ))
            &&& task is Draining ==> {
                &&& reply matches Reply::Written(Ok(n)) ==> {
                    &&& 0 < n < unsent.len() ==> r == ReadProgress::Pending(ReadTask::Draining)
                        && unsent1 == unsent.skip(n as int)
                    &&& 0 < n == unsent.len() ==> r == ReadProgress::Pending(ReadTask::DrainFlush)
                }
                &&& reply matches Reply::Written(Err(e)) ==> (e.kind != IoErrorKind::Interrupted
                    && e.kind != IoErrorKind::WouldBlock && e.kind != IoErrorKind::TimedOut ==> r
                    == ReadProgress::Done(ReadOutcome::Failed(ConnectionError::Io(e))))
            }
            &&& task matches ReadTask::Filling { budget, mark, need } ==> {
                &&& reply matches Reply::Read(Ok(n)) ==> {
                    &&& n == 0 ==> r == ReadProgress::Done(
                        ReadOutcome::Failed(ConnectionError::Closed),
                    )
                    &&& n > 0 && old(ws).bufs.read.pending_bytes().len() + n < need ==> r
                        == ReadProgress::Pending(task)
                }
                &&& reply matches Reply::Read(Err(e)) ==> {
                    &&& e.kind == IoErrorKind::Interrupted ==> r == ReadProgress::Pending(task)
                    &&& e.kind != IoErrorKind::Interrupted && e.kind != IoErrorKind::WouldBlock
                        && e.kind != IoErrorKind::TimedOut ==> r == ReadProgress::Done(
                        ReadOutcome::Failed(ConnectionError::Io(e)),
                    )
                    &&& (e.kind == IoErrorKind::WouldBlock || e.kind == IoErrorKind::TimedOut)
                        && budget < old(ws).sess.frame_budget ==> r == ReadProgress::Done(
                        ReadOutcome::Heard,
                    )
                }
            }
            &&& task matches ReadTask::PongFlush { budget } ==> (reply matches Reply::Flushed(_)
                ==> (budget <= 1 ==> r == ReadProgress::Done(ReadOutcome::Exhausted)))
        }),
        final(ws).stream == old(ws).stream,
{
}

/// What a task asks of the stream.
pub proof fn law_requests(read: &ReadTask, send: &SendTask, r: Request, q: Request)
    requires
        call_ensures(ReadTask::request, (read,), r),
        call_ensures(SendTask::request, (send,), q),
    ensures
        *read is Filling <==> r == Request::Read,
        *read is Draining || *read is Ponging || *read is Closing <==> r == Request::Write,
        *read is DrainFlush || *read is PongFlush || *read is CloseFlush <==> r == Request::Flush,
        *send is Draining || *send is Sending || *send is FlushDraining <==> q == Request::Write,
        *send is Flushing || *send is FlushStream <==> q == Request::Flush,
{
}

/// A socket begins to read unless it is closed; what is queued goes out first.
pub proof fn law_read_begins<S, R: Rng>(
    ws: &mut WebSocket<S, R>,
    r: Result<ReadProgress, Error>,
    at: Option<u64>,
    seen: &WebSocket<S, R>,
)
    requires
        call_ensures(WebSocket::<S, R>::start_read, (ws,), r),
        call_ensures(WebSocket::<S, R>::last_activity, (seen,), at),
    ensures
        old(ws).sess.close_state == CloseState::Closed ==> r == Err::<ReadProgress, Error>(
            Error::Fatal(CallerError::Closing),
        ) && *final(ws) == *old(ws),
        old(ws).sess.close_state != CloseState::Closed ==> r is Ok,
        old(ws).sess.close_state != CloseState::Closed && old(ws).bufs.send.unsent_bytes().len() > 0
            ==> r == Ok::<ReadProgress, Error>(ReadProgress::Pending(ReadTask::Draining)),
        at == seen.sess.last_activity,
{
}

/// What a read gives the caller.
pub proof fn law_message_of_status<'a>(status: ReadStatus<'a>, r: Option<Message<'a>>)
    requires
        call_ensures(ReadStatus::<'a>::message, (status,), r),
    ensures
        status matches ReadStatus::Message(m) ==> r == Some(m),
        status is Idle ==> r is None,
{
}

/// A stream that takes nothing now does not keep the socket from reading: with
/// less than a frame's first two bytes there, it waits for more.
pub proof fn law_stuck_writing_does_not_stop_reading<S, R: Rng>(
    ws: &mut WebSocket<S, R>,
    e: IoError,
    r: ReadProgress,
    flushed: &mut WebSocket<S, R>,
    result: Result<(), IoError>,
    q: ReadProgress,
    begun: &mut WebSocket<S, R>,
    b: Result<ReadProgress, Error>,
)
    requires
        call_ensures(
            WebSocket::<S, R>::resume_read,
            (ws, ReadTask::Draining, Reply::Written(Err(e))),
            r,
        ),
        call_ensures(
            WebSocket::<S, R>::resume_read,
            (flushed, ReadTask::DrainFlush, Reply::Flushed(result)),
            q,
        ),
        call_ensures(WebSocket::<S, R>::start_read, (begun,), b),
        old(ws).bufs.read.pending_bytes().len() < 2,
        old(flushed).bufs.read.pending_bytes().len() < 2,
        old(begun).bufs.read.pending_bytes().len() < 2,
        old(ws).sess.wf() && old(flushed).sess.wf() && old(begun).sess.wf(),
    ensures
        e.kind == IoErrorKind::WouldBlock || e.kind == IoErrorKind::TimedOut ==> (
        r matches ReadProgress::Pending(ReadTask::Filling { budget, mark, need }) && need == 2
            && budget == old(ws).sess.frame_budget),
        q matches ReadProgress::Pending(ReadTask::Filling { budget, mark, need }) && need == 2
            && budget == old(flushed).sess.frame_budget,
        old(begun).sess.close_state != CloseState::Closed && old(
            begun,
        ).bufs.send.unsent_bytes().len() == 0 ==> (b matches Ok(
            ReadProgress::Pending(ReadTask::Filling { budget, mark, need }),
        ) && need == 2 && budget == old(begun).sess.frame_budget),
{
}

} // verus!
