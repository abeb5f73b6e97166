//! What sending puts on the wire, and what comes of it.
use vstd::prelude::*;
use vstd::utf8::encode_utf8;

use crate::ext::bytes_in_memory;
use crate::ws::error::{CallerError, ConnectionError, Error};
use crate::ws::frame::client_frame;
use crate::ws::io::{IoError, IoErrorKind, Reply};
use crate::ws::proto::CloseState;
use crate::ws::rng::{drew, Rng};
use crate::ws::websocket::{SendKind, SendProgress, SendStatus, SendTask, WebSocket};
use crate::ws::wire_laws::law_two_bytes;

verus! {

/// Text is sent as one text frame (opcode 1) of its UTF-8, masked with a key
/// that was drawn for it.
pub proof fn law_text_is_sent<S, R: Rng>(ws: &mut WebSocket<S, R>, text: &str, r: SendProgress)
    requires
        call_ensures(WebSocket::<S, R>::send_text, (ws, text), r),
        old(ws).sess.close_state == CloseState::Open,
        old(ws).bufs.send.unsent_bytes().len() == 0,
    ensures
        r == SendProgress::Pending(SendTask::Sending { kind: SendKind::Text }),
        exists|key: u32, mask: Seq<u8>|
            drew(&old(ws).rng, key, &final(ws).rng) && #[trigger] bytes_in_memory(key, mask)
                && final(ws).bufs.send.unsent_bytes() == client_frame(1, encode_utf8(text@), mask),
{
    lemma_empty_front();
}

/// Bytes are sent as one binary frame (opcode 2).
pub proof fn law_binary_is_sent<S, R: Rng>(ws: &mut WebSocket<S, R>, data: &[u8], r: SendProgress)
    requires
        call_ensures(WebSocket::<S, R>::send_binary, (ws, data), r),
        old(ws).sess.close_state == CloseState::Open,
        old(ws).bufs.send.unsent_bytes().len() == 0,
    ensures
        r == SendProgress::Pending(SendTask::Sending { kind: SendKind::Binary }),
        exists|key: u32, mask: Seq<u8>|
            drew(&old(ws).rng, key, &final(ws).rng) && #[trigger] bytes_in_memory(key, mask)
                && final(ws).bufs.send.unsent_bytes() == client_frame(2, data@, mask),
{
    lemma_empty_front();
}

/// A ping is an empty frame with opcode 9.
pub proof fn law_ping_is_sent<S, R: Rng>(ws: &mut WebSocket<S, R>, deadline: u64, r: SendProgress)
    requires
        call_ensures(WebSocket::<S, R>::send_ping, (ws, deadline), r),
        old(ws).sess.close_state == CloseState::Open,
        old(ws).bufs.send.unsent_bytes().len() == 0,
    ensures
        r == SendProgress::Pending(SendTask::Sending { kind: SendKind::Ping { deadline } }),
        exists|key: u32, mask: Seq<u8>|
            drew(&old(ws).rng, key, &final(ws).rng) && #[trigger] bytes_in_memory(key, mask)
                && final(ws).bufs.send.unsent_bytes() == client_frame(9, Seq::empty(), mask),
{
    lemma_empty_front();
}

/// A close frame (opcode 8) holds the code, in two bytes, and the reason.  Codes
/// that may not be sent, and reasons over 123 bytes, are the caller's error.
pub proof fn law_close_is_sent<S, R: Rng>(
    ws: &mut WebSocket<S, R>,
    code: u16,
    reason: &str,
    r: SendProgress,
)
    requires
        call_ensures(WebSocket::<S, R>::send_close, (ws, code, reason), r),
    ensures
        ({
            let sendable = 1000 <= code <= 1003 || 1007 <= code <= 1014 || 3000 <= code <= 4999;
            let n = encode_utf8(reason@).len();
            &&& !sendable ==> r == SendProgress::Done(
                Err(Error::Fatal(CallerError::InvalidCloseCode(code))),
            ) && *final(ws) == *old(ws)
            &&& sendable && n > 123 ==> r == SendProgress::Done(
                Err(Error::Fatal(CallerError::CloseReasonTooLong(n as usize))),
            ) && *final(ws) == *old(ws)
            &&& sendable && n <= 123 && old(ws).sess.close_state == CloseState::Open && old(
                ws,
            ).bufs.send.unsent_bytes().len() == 0 ==> {
                &&& r == SendProgress::Pending(SendTask::Sending { kind: SendKind::Close })
                &&& exists|key: u32, mask: Seq<u8>|
                    drew(&old(ws).rng, key, &final(ws).rng) && #[trigger] bytes_in_memory(key, mask)
                        && final(ws).bufs.send.unsent_bytes() == client_frame(
                        8,
                        seq![(code / 256) as u8, (code % 256) as u8] + encode_utf8(reason@),
                        mask,
                    )
            }
        }),
{
    lemma_empty_front();
    law_two_bytes(code);
}

proof fn lemma_empty_front()
    ensures
        forall|b: Seq<u8>| #[trigger] (Seq::<u8>::empty() + b) == b,
{
    assert forall|b: Seq<u8>| #[trigger] (Seq::<u8>::empty() + b) == b by {
        assert(Seq::<u8>::empty() + b =~= b);
    }
}

/// What waits to be sent goes first: the new frame is built only when all of it
/// is out.  Until then nothing is drawn or added, and if the stream takes no
/// more, the caller is told to retry later.
pub proof fn law_frames_do_not_mix<S, R: Rng>(
    ws: &mut WebSocket<S, R>,
    kind: SendKind,
    payload: &[u8],
    r: SendProgress,
)
    requires
        call_ensures(WebSocket::<S, R>::send_frame, (ws, kind, payload), r),
    ensures
        final(ws).sess == old(ws).sess,
        old(ws).sess.close_state != CloseState::Open ==> {
            &&& r == SendProgress::Done(Err(Error::Fatal(CallerError::Closing)))
            &&& final(ws).bufs.send.unsent_bytes() == old(ws).bufs.send.unsent_bytes()
            &&& final(ws).rng == old(ws).rng
        },
        old(ws).sess.close_state == CloseState::Open && old(ws).bufs.send.unsent_bytes().len() > 0
            ==> {
            &&& r matches SendProgress::Pending(SendTask::Draining { kind: k, payload: p })
            &&& k == kind
            &&& p@ == payload@
            &&& final(ws).bufs.send.unsent_bytes() == old(ws).bufs.send.unsent_bytes()
            &&& final(ws).rng == old(ws).rng
        },
{
}

/// What the stream took is off the queue, and the rest stays in order.  A frame
/// that is all written is flushed and then done; one that the stream cannot
/// take now is queued; a failing stream fails the send.  A ping that is out sets
/// the deadline, and a close that is out blocks further sends.
pub proof fn law_send_goes_on<S, R: Rng>(
    ws: &mut WebSocket<S, R>,
    task: SendTask,
    reply: Reply,
    r: SendProgress,
)
    requires
        call_ensures(WebSocket::<S, R>::resume_send, (ws, task, reply), r),
    ensures
        ({
            let unsent = old(ws).bufs.send.unsent_bytes();
            let unsent1 = final(ws).bufs.send.unsent_bytes();
            task matches SendTask::Sending { kind } ==> {
                &&& reply matches Reply::Written(Ok(n)) ==> {
                    &&& 0 < n < unsent.len() ==> r == SendProgress::Pending(task) && unsent1
                        == unsent.skip(n as int)
                    &&& 0 < n == unsent.len() ==> r == SendProgress::Pending(
                        SendTask::Flushing { kind },
                    ) && unsent1.len() == 0
                    &&& n == 0 ==> r == SendProgress::Done(
                        Err(Error::Reconnect(ConnectionError::Closed)),
                    )
                }
                &&& reply matches Reply::Written(Err(e)) ==> {
                    &&& e.kind == IoErrorKind::WouldBlock || e.kind == IoErrorKind::TimedOut ==> {
                        &&& r == SendProgress::Done(Ok(SendStatus::Queued))
                        &&& unsent1 == unsent
                        &&& kind matches SendKind::Ping { deadline }
                            ==> final(ws).sess.ping_deadline == Some(deadline)
                        &&& kind is Close ==> final(ws).sess.close_state == CloseState::CloseSent
                        &&& kind is Text || kind is Binary ==> final(ws).sess == old(ws).sess
                    }
                    &&& e.kind == IoErrorKind::Interrupted && unsent.len() > 0 ==> r
                        == SendProgress::Pending(task)
                    &&& e.kind != IoErrorKind::Interrupted && e.kind != IoErrorKind::WouldBlock
                        && e.kind != IoErrorKind::TimedOut ==> r == SendProgress::Done(
                        Err(Error::Reconnect(ConnectionError::Io(e))),
                    )
                }
            }
        }),
        task matches SendTask::Flushing { kind } ==> (reply matches Reply::Flushed(_) ==> {
            &&& r == SendProgress::Done(Ok(SendStatus::Done))
            &&& final(ws).bufs.send.unsent_bytes() == old(ws).bufs.send.unsent_bytes()
            &&& kind matches SendKind::Ping { deadline } ==> final(ws).sess.ping_deadline == Some(
                deadline,
            ) && final(ws).sess.close_state == old(ws).sess.close_state
            &&& kind is Close ==> final(ws).sess.close_state == CloseState::CloseSent
            &&& kind is Text || kind is Binary ==> final(ws).sess == old(ws).sess
        }),
        task matches SendTask::Draining { kind, payload } ==> (reply matches Reply::Written(Err(e))
            ==> {
            &&& e.kind == IoErrorKind::WouldBlock || e.kind == IoErrorKind::TimedOut ==> {
                &&& r == SendProgress::Done(Ok(SendStatus::RetryLater))
                &&& final(ws).bufs.send.unsent_bytes() == old(ws).bufs.send.unsent_bytes()
                &&& final(ws).rng == old(ws).rng
                &&& final(ws).sess == old(ws).sess
            }
        }),
{
    let unsent = old(ws).bufs.send.unsent_bytes();
    assert(unsent.skip(0) =~= unsent);
}

/// Once what waited is all out, the frame that waited behind it is built.
pub proof fn law_waiting_frame_is_built<S, R: Rng>(
    ws: &mut WebSocket<S, R>,
    kind: SendKind,
    payload: Vec<u8>,
    n: usize,
    r: SendProgress,
)
    requires
        call_ensures(
            WebSocket::<S, R>::resume_send,
            (ws, SendTask::Draining { kind, payload }, Reply::Written(Ok(n))),
            r,
        ),
        0 < n == old(ws).bufs.send.unsent_bytes().len(),
    ensures
        r == SendProgress::Pending(SendTask::Sending { kind }),
        exists|key: u32, mask: Seq<u8>|
            drew(&old(ws).rng, key, &final(ws).rng) && #[trigger] bytes_in_memory(key, mask)
                && final(ws).bufs.send.unsent_bytes() == client_frame(
                match kind {
                    SendKind::Text => 1,
                    SendKind::Binary => 2,
                    SendKind::Ping { deadline } => 9,
                    SendKind::Close => 8,
                },
                payload@,
                mask,
            ),
{
    lemma_empty_front();
}

/// A flush writes what is queued and flushes the stream; it is done when both
/// have succeeded.
pub proof fn law_flush<S, R: Rng>(
    ws: &mut WebSocket<S, R>,
    begun: SendProgress,
    other: &mut WebSocket<S, R>,
    result: Result<(), IoError>,
    r: SendProgress,
)
    requires
        call_ensures(WebSocket::<S, R>::flush, (ws,), begun),
        call_ensures(
            WebSocket::<S, R>::resume_send,
            (other, SendTask::FlushStream, Reply::Flushed(result)),
            r,
        ),
    ensures
        *final(ws) == *old(ws),
        old(ws).bufs.send.unsent_bytes().len() > 0 ==> begun == SendProgress::Pending(
            SendTask::FlushDraining,
        ),
        old(ws).bufs.send.unsent_bytes().len() == 0 ==> begun == SendProgress::Pending(
            SendTask::FlushStream,
        ),
        result is Ok ==> r == SendProgress::Done(Ok(SendStatus::Done)),
        result matches Err(e) ==> {
            &&& e.kind == IoErrorKind::WouldBlock || e.kind == IoErrorKind::TimedOut ==> r
                == SendProgress::Done(Ok(SendStatus::Queued))
            &&& e.kind != IoErrorKind::WouldBlock && e.kind != IoErrorKind::TimedOut ==> r
                == SendProgress::Done(Err(Error::Reconnect(ConnectionError::Io(e))))
        },
{
}

/// Queued bytes are written in order; when all are out the stream is flushed.
pub proof fn law_flush_writes<S, R: Rng>(
    ws: &mut WebSocket<S, R>,
    outcome: Result<usize, IoError>,
    r: SendProgress,
)
    requires
        call_ensures(
            WebSocket::<S, R>::resume_send,
            (ws, SendTask::FlushDraining, Reply::Written(outcome)),
            r,
        ),
    ensures
        final(ws).sess == old(ws).sess,
        ({
            let unsent = old(ws).bufs.send.unsent_bytes();
            let unsent1 = final(ws).bufs.send.unsent_bytes();
            &&& outcome matches Ok(n) ==> {
                &&& 0 < n < unsent.len() ==> r == SendProgress::Pending(SendTask::FlushDraining)
                    && unsent1 == unsent.skip(n as int)
                &&& 0 < n == unsent.len() ==> r == SendProgress::Pending(SendTask::FlushStream)
                    && unsent1.len() == 0
                &&& n == 0 ==> r == SendProgress::Done(
                    Err(Error::Reconnect(ConnectionError::Closed)),
                )
            }
            &&& outcome matches Err(e) ==> {
                &&& e.kind == IoErrorKind::WouldBlock || e.kind == IoErrorKind::TimedOut ==> r
                    == SendProgress::Done(Ok(SendStatus::Queued)) && unsent1 == unsent
                &&& e.kind != IoErrorKind::Interrupted && e.kind != IoErrorKind::WouldBlock
                    && e.kind != IoErrorKind::TimedOut ==> r == SendProgress::Done(
                    Err(Error::Reconnect(ConnectionError::Io(e))),
                )
            }
        }),
{
}

/// The stream is handed the bytes that are to be written, and no others.
pub proof fn law_write_parts<S, R: Rng>(ws: &mut WebSocket<S, R>, r: (&mut S, &[u8]))
    requires
        call_ensures(WebSocket::<S, R>::write_parts, (ws,), r),
    ensures
        r.1@ == old(ws).bufs.send.unsent_bytes(),
        final(ws).bufs == old(ws).bufs,
        final(ws).sess == old(ws).sess,
        final(ws).rng == old(ws).rng,
{
}

} // verus!
