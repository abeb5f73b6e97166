//! The WebSocket client.
//!
//! 1. **Create**: [`WebSocket::new`] allocates buffers.  Chain
//!    [`max_payload`](WebSocket::max_payload) and the other builders to
//!    configure limits.
//! 2. **Connect**: [`try_connect`](WebSocket::try_connect) begins the HTTP
//!    upgrade handshake.
//! 3. **Message loop**: [`start_read`](WebSocket::start_read) begins a read,
//!    and [`read_message`](WebSocket::read_message) gives its result.  Send
//!    with [`send_text`](WebSocket::send_text) and
//!    [`send_binary`](WebSocket::send_binary).
//! 4. **Close**: [`send_close`](WebSocket::send_close), then keep reading
//!    until [`Message::Close`] arrives.
//! 5. **Reuse**: [`disconnect`](WebSocket::disconnect) gives the streamless
//!    `WebSocket` and the stream back separately.
use vstd::prelude::*;
use vstd::slice::{slice_subrange, slice_to_vec};
use vstd::utf8::{encode_utf8, is_ascii_chars_encode_utf8, valid_utf8};

use crate::bytes::{be_bytes, to_be};
use crate::digest::{base64_standard, encode_base64, is_base64_byte};
use crate::ext::{decode_text, shrink_capacity, utf8_error_of};
use crate::ws::error::{
    fill_error, fill_error_means, search_error, CallerError, ConnectionError, Error,
};
use crate::ws::frame::{
    build_frame, queued, sendable_close_code, validate_send_close_code, OP_BINARY, OP_CLOSE, OP_PING,
    OP_TEXT,
};
use crate::ws::handshake::{
    accept_for, blank_line_at, check_request_parts, check_response, header_search, lemma_header_search_bound, opt_text,
    request_parts_ok, response_result, search_headers, searched, upgrade_request, write_request,
};
use crate::ws::io::{IoError, IoErrorKind, Reply, Request};
use crate::ws::proto::{
    fresh_frames_lead_to, read_resumes, reply_fits, Buffers, CloseState, ReadOutcome,
    ReadProgress, ReadTask, Session, DEFAULT_MAX_BUF_SIZE, DEFAULT_MAX_PAYLOAD,
    MAX_HEADER,
};
use crate::ws::read_buf::read_once_result;
use crate::ws::rng::Rng;
use crate::ws::send_buf::{write_result, SendBuf};

verus! {

/// Outcome of a send operation.
#[derive(Debug, Clone, Copy, PartialEq, Eq, Structural)]
pub enum SendStatus {
    /// Frame fully written to the stream.
    Done,
    /// Frame is queued in the send buffer but not yet (fully) flushed.  Call
    /// [`WebSocket::flush`] to finish sending.
    Queued,
    /// A previously queued frame is still draining and the new frame was
    /// **not** built.  Call [`WebSocket::flush`] to finish the pending write,
    /// then retry the send.
    RetryLater,
}

/// A complete WebSocket message, borrowing from the WebSocket's buffers.
#[derive(Debug)]
pub enum Message<'a> {
    /// A UTF-8 text message.
    Text(&'a str),
    /// A binary message.
    Binary(&'a [u8]),
    /// A close frame with optional status code and reason.
    Close(Option<u16>, &'a str),
}

/// Result of [`WebSocket::read_message`].
#[derive(Debug)]
pub enum ReadStatus<'a> {
    /// A complete message was read.
    Message(Message<'a>),
    /// No complete message is available: the stream would block or timed out,
    /// or the frame budget is used up.  Use
    /// [`last_activity`](WebSocket::last_activity) to tell these apart.
    Idle,
}

impl<'a> ReadStatus<'a> {
    /// Returns the contained message, or `None` if idle.
    pub fn message(self) -> (r: Option<Message<'a>>)
        ensures
            r == (match self {
                ReadStatus::Message(m) => Some(m),
                ReadStatus::Idle => None,
            }),
    {
        match self {
            ReadStatus::Message(m) => Some(m),
            ReadStatus::Idle => None,
        }
    }
}

/// What a frame is sent for.
#[derive(Debug, Clone, Copy, PartialEq, Eq, Structural)]
pub enum SendKind {
    Text,
    Binary,
    /// A ping that is to be answered, by any frame, before the deadline.
    Ping { deadline: u64 },
    Close,
}

impl SendKind {
    pub open spec fn spec_opcode(self) -> u8 {
        match self {
            SendKind::Text => OP_TEXT,
            SendKind::Binary => OP_BINARY,
            SendKind::Ping { .. } => OP_PING,
            SendKind::Close => OP_CLOSE,
        }
    }

    pub fn opcode(&self) -> (r: u8)
        ensures
            r == self.spec_opcode(),
    {
        match self {
            SendKind::Text => OP_TEXT,
            SendKind::Binary => OP_BINARY,
            SendKind::Ping { .. } => OP_PING,
            SendKind::Close => OP_CLOSE,
        }
    }
}

/// A send or flush in progress.  Each task waits for the reply to one request.
#[derive(Debug)]
pub enum SendTask {
    /// Finishing the previous frame before this one is built.
    Draining { kind: SendKind, payload: Vec<u8> },
    /// Writing this frame.
    Sending { kind: SendKind },
    /// This frame is written: flushing the stream.
    Flushing { kind: SendKind },
    /// A plain flush: writing what is queued.
    FlushDraining,
    /// A plain flush: flushing the stream.
    FlushStream,
}

impl SendTask {
    pub open spec fn spec_request(self) -> Request {
        match self {
            SendTask::Draining { .. } | SendTask::Sending { .. } | SendTask::FlushDraining =>
                Request::Write,
            SendTask::Flushing { .. } | SendTask::FlushStream => Request::Flush,
        }
    }

    /// What the task waits for.
    pub fn request(&self) -> (r: Request)
        ensures
            r == self.spec_request(),
    {
        match self {
            SendTask::Draining { .. } | SendTask::Sending { .. } | SendTask::FlushDraining =>
                Request::Write,
            SendTask::Flushing { .. } | SendTask::FlushStream => Request::Flush,
        }
    }
}

/// Where a send stands.
#[derive(Debug)]
pub enum SendProgress {
    /// The task's request is to be carried out.
    Pending(SendTask),
    Done(Result<SendStatus, Error>),
}

/// A WebSocket client over an arbitrary byte stream.
pub struct WebSocket<S, R> {
    pub stream: S,
    pub bufs: Buffers,
    pub sess: Session,
    pub rng: R,
}

/// The session after a read that took in frames.
pub open spec fn session_alive(s: Session, now: u64) -> Session {
    Session { last_activity: Some(now), ping_deadline: None, ..s }
}

/// The session after the connection failed.
pub open spec fn session_closed(s: Session) -> Session {
    Session { close_state: CloseState::Closed, ..s }
}

/// What a finished read comes to: result and session.
pub open spec fn read_comes_to(
    b: Buffers,
    s: Session,
    outcome: ReadOutcome,
    now: u64,
    r: Result<ReadStatus<'_>, Error>,
    s1: Session,
) -> bool {
    match outcome {
        ReadOutcome::Message { opcode, fragmented, start, len } => {
            let bytes = b.message_bytes(fragmented, start, len);
            if opcode == OP_BINARY {
                &&& r matches Ok(ReadStatus::Message(Message::Binary(data)))
                &&& data@ == bytes
                &&& s1 == session_alive(s, now)
            } else if valid_utf8(bytes) {
                &&& r matches Ok(ReadStatus::Message(Message::Text(text)))
                &&& encode_utf8(text@) == bytes
                &&& s1 == session_alive(s, now)
            } else {
                &&& r == Err::<ReadStatus, Error>(
                    Error::Reconnect(ConnectionError::InvalidUtf8(utf8_error_of(bytes))),
                )
                &&& s1 == session_closed(s)
            }
        },
        ReadOutcome::Close { code, start, len } => {
            &&& r matches Ok(ReadStatus::Message(Message::Close(status, reason)))
            &&& status == code
            &&& encode_utf8(reason@) == b.message_bytes(false, start, len)
            &&& s1 == session_alive(s, now)
        },
        ReadOutcome::Exhausted | ReadOutcome::Heard => r == Ok::<ReadStatus, Error>(
            ReadStatus::Idle,
        ) && s1 == session_alive(s, now),
        ReadOutcome::Failed(e) => if !e.spec_is_would_block() {
            r == Err::<ReadStatus, Error>(Error::Reconnect(e)) && s1 == session_closed(s)
        } else if s.ping_deadline matches Some(deadline) && now >= deadline {
            &&& r == Err::<ReadStatus, Error>(Error::Reconnect(ConnectionError::PingTimeout))
            &&& s1 == session_closed(Session { ping_deadline: None, ..s })
        } else {
            r == Ok::<ReadStatus, Error>(ReadStatus::Idle) && s1 == s
        },
    }
}

impl<S, R> WebSocket<S, R> {
    pub open spec fn wf(self) -> bool {
        self.bufs.wf() && self.sess.wf()
    }
}

impl<S, R: Rng> WebSocket<S, R> {
    /// How a read starts: a closed connection is not read; what an earlier send
    /// left is written first; else frames are processed.
    pub open spec fn read_starts(self, r: Result<ReadProgress, Error>, after: Self) -> bool {
        if self.sess.close_state == CloseState::Closed {
            &&& r == Err::<ReadProgress, Error>(Error::Fatal(CallerError::Closing))
            &&& after == self
        } else {
            &&& r matches Ok(p)
            &&& p.wf(after.bufs)
            &&& after.stream == self.stream
            &&& if self.bufs.send.unsent_bytes().len() > 0 {
                &&& p == ReadProgress::Pending(ReadTask::Draining)
                &&& after == self
            } else {
                fresh_frames_lead_to(
                    self.bufs,
                    self.sess,
                    self.rng,
                    self.sess.frame_budget,
                    after.bufs,
                    after.sess,
                    after.rng,
                    p,
                )
            }
        }
    }

    /// Begin to read the next complete message.  Frames are read and
    /// reassembled per RFC 6455 sections 5 and 6.  Pings are answered with
    /// pongs, and a close frame's status code is echoed, as part of the read.
    pub fn start_read(&mut self) -> (r: Result<ReadProgress, Error>)
        requires
            old(self).wf(),
        ensures
            final(self).wf(),
            old(self).read_starts(r, *final(self)),
    {
        if self.sess.close_state == CloseState::Closed {
            return Err(Error::Fatal(CallerError::Closing));
        }
        Ok(self.bufs.read_message(&mut self.sess, &mut self.rng))
    }

    /// Go on with a read, given the reply to what its task asked for.
    pub fn resume_read(&mut self, task: ReadTask, reply: Reply) -> (r: ReadProgress)
        requires
            old(self).wf(),
            task.wf(old(self).bufs),
            reply_fits(old(self).bufs, task.spec_request(), reply),
        ensures
            final(self).wf(),
            final(self).stream == old(self).stream,
            r.wf(final(self).bufs),
            read_resumes(
                old(self).bufs,
                old(self).sess,
                old(self).rng,
                task,
                reply,
                final(self).bufs,
                final(self).sess,
                final(self).rng,
                r,
            ),
    {
        self.bufs.resume_read(&mut self.sess, &mut self.rng, task, reply)
    }

    /// The result of a finished read.  `now` is the time on the caller's
    /// clock.  A message borrows from the buffers.
    pub fn read_message(&mut self, outcome: ReadOutcome, now: u64) -> (r: Result<
        ReadStatus<'_>,
        Error,
    >)
        requires
            old(self).wf(),
            outcome.wf(old(self).bufs),
        ensures
            final(self).wf(),
            final(self).stream == old(self).stream,
            final(self).rng == old(self).rng,
            final(self).bufs == old(self).bufs,
            read_comes_to(old(self).bufs, old(self).sess, outcome, now, r, final(self).sess),
    {
        match outcome {
            ReadOutcome::Message { opcode, fragmented, start, len } => {
                let bytes = if fragmented {
                    self.bufs.fragment_buf.as_slice()
                } else {
                    self.bufs.read.slice(start..start + len)
                };
                match into_message(opcode, bytes) {
                    Ok(m) => {
                        self.sess.last_activity = Some(now);
                        self.sess.ping_deadline = None;
                        Ok(ReadStatus::Message(m))
                    },
                    Err(e) => {
                        self.sess.close_state = CloseState::Closed;
                        Err(Error::Reconnect(e))
                    },
                }
            },
            ReadOutcome::Close { code, start, len } => {
                self.sess.last_activity = Some(now);
                self.sess.ping_deadline = None;
                match decode_text(self.bufs.read.slice(start..start + len)) {
                    Ok(reason) => Ok(ReadStatus::Message(Message::Close(code, reason))),
                    Err(e) => Err(Error::Reconnect(ConnectionError::InvalidUtf8(e))),
                }
            },
            ReadOutcome::Exhausted | ReadOutcome::Heard => {
                self.sess.last_activity = Some(now);
                self.sess.ping_deadline = None;
                Ok(ReadStatus::Idle)
            },
            ReadOutcome::Failed(e) => {
                if e.is_would_block() {
                    if let Some(deadline) = self.sess.ping_deadline {
                        if now >= deadline {
                            self.sess.ping_deadline = None;
                            self.sess.close_state = CloseState::Closed;
                            return Err(Error::Reconnect(ConnectionError::PingTimeout));
                        }
                    }
                    Ok(ReadStatus::Idle)
                } else {
                    self.sess.close_state = CloseState::Closed;
                    Err(Error::Reconnect(e))
                }
            },
        }
    }
}

/// A data message out of its bytes.
pub fn into_message<'a>(opcode: u8, buf: &'a [u8]) -> (r: Result<Message<'a>, ConnectionError>)
    requires
        opcode == OP_TEXT || opcode == OP_BINARY,
    ensures
        if opcode == OP_BINARY {
            r == Ok::<Message, ConnectionError>(Message::Binary(buf))
        } else if valid_utf8(buf@) {
            r matches Ok(Message::Text(text)) && encode_utf8(text@) == buf@
        } else {
            r == Err::<Message, ConnectionError>(
                ConnectionError::InvalidUtf8(utf8_error_of(buf@)),
            )
        },
{
    if opcode == OP_BINARY {
        Ok(Message::Binary(buf))
    } else {
        match decode_text(buf) {
            Ok(text) => Ok(Message::Text(text)),
            Err(e) => Err(ConnectionError::InvalidUtf8(e)),
        }
    }
}

/// The session after a frame was built and written or queued: a ping is
/// waited for, a close is committed.
pub open spec fn session_sent(s: Session, kind: SendKind) -> Session {
    match kind {
        SendKind::Ping { deadline } => Session { ping_deadline: Some(deadline), ..s },
        SendKind::Close => Session { close_state: CloseState::CloseSent, ..s },
        SendKind::Text | SendKind::Binary => s,
    }
}

/// What beginning to send a frame does, where `unsent` waits from before.
pub open spec fn send_begins<R: Rng>(
    unsent: Seq<u8>,
    s: Session,
    rng: R,
    kind: SendKind,
    payload: Seq<u8>,
    r: SendProgress,
    unsent1: Seq<u8>,
    s1: Session,
    rng1: R,
) -> bool {
    &&& s1 == s
    &&& if s.close_state != CloseState::Open {
        &&& r == SendProgress::Done(Err(Error::Fatal(CallerError::Closing)))
        &&& unsent1 == unsent && rng1 == rng
    } else if unsent.len() > 0 {
        &&& r matches SendProgress::Pending(SendTask::Draining { kind: k, payload: p })
        &&& k == kind
        &&& p@ == payload
        &&& unsent1 == unsent && rng1 == rng
    } else {
        &&& r == SendProgress::Pending(SendTask::Sending { kind })
        &&& queued(Seq::empty(), unsent1, kind.spec_opcode(), payload, &rng, &rng1)
    }
}

/// What a reply does to a send or flush in progress.
pub open spec fn send_resumes<R: Rng>(
    send: SendBuf,
    s: Session,
    rng: R,
    task: SendTask,
    reply: Reply,
    r: SendProgress,
    send1: SendBuf,
    s1: Session,
    rng1: R,
) -> bool {
    let unsent = send.unsent_bytes();
    let unsent1 = send1.unsent_bytes();
    match (task, reply) {
        (SendTask::Draining { kind, payload }, Reply::Written(outcome)) => match write_result(
            outcome,
        ) {
            Ok(n) => if n < unsent.len() {
                r == SendProgress::Pending(task) && unsent1 == unsent.skip(n) && s1 == s && rng1
                    == rng
            } else {
                &&& r == SendProgress::Pending(SendTask::Sending { kind })
                &&& queued(Seq::empty(), unsent1, kind.spec_opcode(), payload@, &rng, &rng1)
                &&& s1 == s
            },
            Err(e) => {
                &&& r == SendProgress::Done(
                    if e.spec_is_would_block() {
                        Ok(SendStatus::RetryLater)
                    } else {
                        Err(Error::Reconnect(e))
                    },
                )
                &&& unsent1 == unsent
                &&& s1 == s && rng1 == rng
            },
        },
        (SendTask::Sending { kind }, Reply::Written(outcome)) => match write_result(outcome) {
            Ok(n) => {
                &&& rng1 == rng
                &&& r == SendProgress::Pending(
                    if n < unsent.len() {
                        task
                    } else {
                        SendTask::Flushing { kind }
                    },
                )
                &&& unsent1 == unsent.skip(n)
                &&& s1 == s
            },
            Err(e) => if e.spec_is_would_block() {
                &&& r == SendProgress::Done(Ok(SendStatus::Queued))
                &&& unsent1 == unsent
                &&& s1 == session_sent(s, kind) && rng1 == rng
            } else {
                &&& r == SendProgress::Done(Err(Error::Reconnect(e)))
                &&& unsent1 == unsent
                &&& s1 == s && rng1 == rng
            },
        },
        (SendTask::Flushing { kind }, Reply::Flushed(_)) => {
            &&& r == SendProgress::Done(Ok(SendStatus::Done))
            &&& s1 == session_sent(s, kind)
            &&& if kind is Ping {
                send1 == send && rng1 == rng
            } else {
                send.shrinks_to(s.max_buf_size, &rng, send1, &rng1)
            }
        },
        (SendTask::FlushDraining, Reply::Written(outcome)) => {
            &&& s1 == s
            &&& match write_result(outcome) {
                Ok(n) => {
                    &&& r == SendProgress::Pending(
                        if n < unsent.len() {
                            task
                        } else {
                            SendTask::FlushStream
                        },
                    )
                    &&& unsent1 == unsent.skip(n)
                    &&& if n < unsent.len() {
                        rng1 == rng
                    } else {
                        exists|drained: SendBuf|
                            {
                                &&& drained.unsent_bytes() == unsent.skip(n)
                                &&& drained.held_bytes() == send.held_bytes()
                                &&& #[trigger] drained.shrinks_to(
                                    s.max_buf_size,
                                    &rng,
                                    send1,
                                    &rng1,
                                )
                            }
                    }
                },
                Err(e) => {
                    &&& r == SendProgress::Done(
                        if e.spec_is_would_block() {
                            Ok(SendStatus::Queued)
                        } else {
                            Err(Error::Reconnect(e))
                        },
                    )
                    &&& unsent1 == unsent && rng1 == rng
                },
            }
        },
        (SendTask::FlushStream, Reply::Flushed(outcome)) => {
            &&& s1 == s && rng1 == rng
            &&& unsent1 == unsent
            &&& r == SendProgress::Done(
                match outcome {
                    Ok(()) => Ok(SendStatus::Done),
                    Err(e) => if e.spec_is_would_block() {
                        Ok(SendStatus::Queued)
                    } else {
                        Err(Error::Reconnect(ConnectionError::Io(e)))
                    },
                },
            )
        },
        _ => true,
    }
}

impl SendTask {
    /// A task that writes has something to write.
    pub open spec fn wf(self, b: Buffers) -> bool {
        self.spec_request() == Request::Write ==> b.send.unsent_bytes().len() > 0
    }
}

impl SendProgress {
    pub open spec fn wf(self, b: Buffers) -> bool {
        self matches SendProgress::Pending(task) ==> task.wf(b)
    }
}

impl<S, R: Rng> WebSocket<S, R> {
    /// All but the send buffer and the session is as it was.
    pub open spec fn only_sent(self, before: Self) -> bool {
        &&& self.stream == before.stream
        &&& self.bufs.read == before.bufs.read
        &&& self.bufs.line_ends == before.bufs.line_ends
        &&& self.bufs.fragment_buf == before.bufs.fragment_buf
    }

    /// Begin to send a frame.  If a previous frame is still partly queued, it
    /// is written first, and this one is built only once that is done.
    pub fn send_frame(&mut self, kind: SendKind, payload: &[u8]) -> (r: SendProgress)
        requires
            old(self).wf(),
        ensures
            final(self).wf(),
            final(self).only_sent(*old(self)),
            r.wf(final(self).bufs),
            send_begins(
                old(self).bufs.send.unsent_bytes(),
                old(self).sess,
                old(self).rng,
                kind,
                payload@,
                r,
                final(self).bufs.send.unsent_bytes(),
                final(self).sess,
                final(self).rng,
            ),
    {
        if self.sess.close_state != CloseState::Open {
            return SendProgress::Done(Err(Error::Fatal(CallerError::Closing)));
        }
        if self.bufs.send.has_pending() {
            return SendProgress::Pending(
                SendTask::Draining { kind, payload: slice_to_vec(payload) },
            );
        }
        self.bufs.send.clear();
        build_frame(&mut self.bufs.send, &mut self.rng, kind.opcode(), payload);
        SendProgress::Pending(SendTask::Sending { kind })
    }

    /// Go on with a send or flush, given the reply to what its task asked for.
    pub fn resume_send(&mut self, task: SendTask, reply: Reply) -> (r: SendProgress)
        requires
            old(self).wf(),
            task.wf(old(self).bufs),
            reply_fits(old(self).bufs, task.spec_request(), reply),
        ensures
            final(self).wf(),
            final(self).only_sent(*old(self)),
            r.wf(final(self).bufs),
            send_resumes(
                old(self).bufs.send,
                old(self).sess,
                old(self).rng,
                task,
                reply,
                r,
                final(self).bufs.send,
                final(self).sess,
                final(self).rng,
            ),
    {
        match (task, reply) {
            (SendTask::Draining { kind, payload }, Reply::Written(outcome)) =>
                match self.bufs.send.flush(outcome) {
                    Ok(drained) => {
                        if !drained {
                            return SendProgress::Pending(SendTask::Draining { kind, payload });
                        }
                        self.bufs.send.clear();
                        build_frame(
                            &mut self.bufs.send,
                            &mut self.rng,
                            kind.opcode(),
                            payload.as_slice(),
                        );
                        SendProgress::Pending(SendTask::Sending { kind })
                    },
                    Err(e) => SendProgress::Done(
                        if e.is_would_block() {
                            Ok(SendStatus::RetryLater)
                        } else {
                            Err(Error::Reconnect(e))
                        },
                    ),
                },
            (SendTask::Sending { kind }, Reply::Written(outcome)) =>
                match self.bufs.send.flush(outcome) {
                    Ok(drained) => SendProgress::Pending(
                        if drained {
                            SendTask::Flushing { kind }
                        } else {
                            SendTask::Sending { kind }
                        },
                    ),
                    Err(e) => {
                        if e.is_would_block() {
                            self.sent(kind);
                            SendProgress::Done(Ok(SendStatus::Queued))
                        } else {
                            SendProgress::Done(Err(Error::Reconnect(e)))
                        }
                    },
                },
            (SendTask::Flushing { kind }, _) => {
                self.sent(kind);
                match kind {
                    SendKind::Ping { .. } => {},
                    SendKind::Text | SendKind::Binary | SendKind::Close => {
                        self.bufs.send.maybe_shrink(self.sess.max_buf_size, &mut self.rng);
                    },
                }
                SendProgress::Done(Ok(SendStatus::Done))
            },
            (SendTask::FlushDraining, Reply::Written(outcome)) =>
                match self.bufs.send.flush(outcome) {
                    Ok(drained) => {
                        if !drained {
                            return SendProgress::Pending(SendTask::FlushDraining);
                        }
                        self.bufs.send.maybe_shrink(self.sess.max_buf_size, &mut self.rng);
                        SendProgress::Pending(SendTask::FlushStream)
                    },
                    Err(e) => SendProgress::Done(
                        if e.is_would_block() {
                            Ok(SendStatus::Queued)
                        } else {
                            Err(Error::Reconnect(e))
                        },
                    ),
                },
            (SendTask::FlushStream, Reply::Flushed(outcome)) => SendProgress::Done(
                match outcome {
                    Ok(()) => Ok(SendStatus::Done),
                    Err(e) => if e.is_would_block() {
                        Ok(SendStatus::Queued)
                    } else {
                        Err(Error::Reconnect(ConnectionError::Io(e)))
                    },
                },
            ),
            (task, _) => SendProgress::Pending(task),
        }
    }

    /// A frame was built and written or queued.
    fn sent(&mut self, kind: SendKind)
        ensures
            *final(self) == (WebSocket { sess: session_sent(old(self).sess, kind), ..*old(self) }),
    {
        match kind {
            SendKind::Ping { deadline } => {
                self.sess.ping_deadline = Some(deadline);
            },
            SendKind::Close => {
                self.sess.close_state = CloseState::CloseSent;
            },
            SendKind::Text | SendKind::Binary => {},
        }
    }

    /// Begin to write any queued data and flush the stream.
    pub fn flush(&mut self) -> (r: SendProgress)
        requires
            old(self).wf(),
        ensures
            *final(self) == *old(self),
            r.wf(final(self).bufs),
            r == SendProgress::Pending(
                if old(self).bufs.send.unsent_bytes().len() > 0 {
                    SendTask::FlushDraining
                } else {
                    SendTask::FlushStream
                },
            ),
    {
        SendProgress::Pending(
            if self.bufs.send.has_pending() {
                SendTask::FlushDraining
            } else {
                SendTask::FlushStream
            },
        )
    }

    /// Begin to send a text frame.
    pub fn send_text(&mut self, text: &str) -> (r: SendProgress)
        requires
            old(self).wf(),
        ensures
            final(self).wf(),
            final(self).only_sent(*old(self)),
            r.wf(final(self).bufs),
            send_begins(
                old(self).bufs.send.unsent_bytes(),
                old(self).sess,
                old(self).rng,
                SendKind::Text,
                encode_utf8(text@),
                r,
                final(self).bufs.send.unsent_bytes(),
                final(self).sess,
                final(self).rng,
            ),
    {
        self.send_frame(SendKind::Text, text.as_bytes())
    }

    /// Begin to send a binary frame.
    pub fn send_binary(&mut self, data: &[u8]) -> (r: SendProgress)
        requires
            old(self).wf(),
        ensures
            final(self).wf(),
            final(self).only_sent(*old(self)),
            r.wf(final(self).bufs),
            send_begins(
                old(self).bufs.send.unsent_bytes(),
                old(self).sess,
                old(self).rng,
                SendKind::Binary,
                data@,
                r,
                final(self).bufs.send.unsent_bytes(),
                final(self).sess,
                final(self).rng,
            ),
    {
        self.send_frame(SendKind::Binary, data)
    }

    /// Begin to send a ping for liveness detection.  If no frame is received
    /// by `deadline`, the next read that observes silence fails with
    /// [`ConnectionError::PingTimeout`].  Any received frame clears the
    /// deadline; a second ping replaces it.
    pub fn send_ping(&mut self, deadline: u64) -> (r: SendProgress)
        requires
            old(self).wf(),
        ensures
            final(self).wf(),
            final(self).only_sent(*old(self)),
            r.wf(final(self).bufs),
            send_begins(
                old(self).bufs.send.unsent_bytes(),
                old(self).sess,
                old(self).rng,
                SendKind::Ping { deadline },
                Seq::empty(),
                r,
                final(self).bufs.send.unsent_bytes(),
                final(self).sess,
                final(self).rng,
            ),
    {
        let none: Vec<u8> = Vec::new();
        self.send_frame(SendKind::Ping { deadline }, none.as_slice())
    }

    /// Begin to send a close frame with the given status code and reason.  The
    /// reason must be at most 123 bytes.  The connection counts as closing even
    /// if the frame is only queued: no further data frames may be sent.
    pub fn send_close(&mut self, code: u16, reason: &str) -> (r: SendProgress)
        requires
            old(self).wf(),
        ensures
            final(self).wf(),
            final(self).only_sent(*old(self)),
            r.wf(final(self).bufs),
            ({
                let bytes = encode_utf8(reason@);
                if !sendable_close_code(code) {
                    &&& r == SendProgress::Done(
                        Err(Error::Fatal(CallerError::InvalidCloseCode(code))),
                    )
                    &&& *final(self) == *old(self)
                } else if bytes.len() > 123 {
                    &&& r == SendProgress::Done(
                        Err(Error::Fatal(CallerError::CloseReasonTooLong(bytes.len() as usize))),
                    )
                    &&& *final(self) == *old(self)
                } else {
                    send_begins(
                        old(self).bufs.send.unsent_bytes(),
                        old(self).sess,
                        old(self).rng,
                        SendKind::Close,
                        be_bytes(code as nat, 2) + bytes,
                        r,
                        final(self).bufs.send.unsent_bytes(),
                        final(self).sess,
                        final(self).rng,
                    )
                }
            }),
    {
        match validate_send_close_code(code) {
            Ok(()) => {},
            Err(e) => {
                return SendProgress::Done(Err(Error::Fatal(e)));
            },
        }
        let reason = reason.as_bytes();
        if reason.len() > 123 {
            return SendProgress::Done(Err(Error::Fatal(CallerError::CloseReasonTooLong(reason.len()))));
        }
        let mut payload: Vec<u8> = to_be(code as u64, 2);
        let ghost head = payload@;
        payload.extend_from_slice(reason);
        assert(payload@ =~= head + reason@);
        self.send_frame(SendKind::Close, payload.as_slice())
    }

    /// The stream and the region that the next read fills.
    pub fn read_parts(&mut self) -> (r: (&mut S, &mut [u8]))
        requires
            old(self).wf(),
        ensures
            *r.0 == old(self).stream,
            r.1@ == old(self).bufs.read.data().skip(old(self).bufs.read.end_pos()),
            final(self).stream == *final(r.0),
            final(self).sess == old(self).sess,
            final(self).rng == old(self).rng,
            final(self).bufs.send == old(self).bufs.send,
            final(self).bufs.fragment_buf == old(self).bufs.fragment_buf,
            final(self).bufs.line_ends == old(self).bufs.line_ends,
            final(self).bufs.read.start_pos() == old(self).bufs.read.start_pos(),
            final(self).bufs.read.end_pos() == old(self).bufs.read.end_pos(),
            final(self).bufs.read.data() == old(self).bufs.read.data().take(
                old(self).bufs.read.end_pos(),
            ) + final(r.1)@,
    {
        (&mut self.stream, self.bufs.read.spare_mut())
    }

    /// The stream and the bytes that the next write is to be given.
    pub fn write_parts(&mut self) -> (r: (&mut S, &[u8]))
        requires
            old(self).wf(),
        ensures
            *r.0 == old(self).stream,
            r.1@ == old(self).bufs.send.unsent_bytes(),
            *final(self) == (WebSocket { stream: *final(r.0), ..*old(self) }),
    {
        (&mut self.stream, self.bufs.send.unsent())
    }
}

/// A handshake in progress.  Each task waits for the reply to one request.
#[derive(Debug)]
pub enum HandshakeTask {
    /// Writing the upgrade request.
    Writing { key: Vec<u8> },
    /// The request is written: flushing the stream.
    Flushing { key: Vec<u8> },
    /// Reading the response; the line that starts at `scan` is still open.
    Reading { key: Vec<u8>, scan: usize },
}

/// Where a handshake stands.
#[derive(Debug)]
pub enum HandshakeProgress {
    /// The task's request is to be carried out.
    Pending(HandshakeTask),
    Done(Result<(), ConnectionError>),
}

impl HandshakeTask {
    pub open spec fn spec_request(self) -> Request {
        match self {
            HandshakeTask::Writing { .. } => Request::Write,
            HandshakeTask::Flushing { .. } => Request::Flush,
            HandshakeTask::Reading { .. } => Request::Read,
        }
    }

    /// What the task waits for.
    pub fn request(&self) -> (r: Request)
        ensures
            r == self.spec_request(),
    {
        match self {
            HandshakeTask::Writing { .. } => Request::Write,
            HandshakeTask::Flushing { .. } => Request::Flush,
            HandshakeTask::Reading { .. } => Request::Read,
        }
    }

    /// The key that the server must answer.
    pub open spec fn key(self) -> Seq<u8> {
        match self {
            HandshakeTask::Writing { key } => key@,
            HandshakeTask::Flushing { key } => key@,
            HandshakeTask::Reading { key, .. } => key@,
        }
    }

    /// The task fits the buffers that it is about.
    pub open spec fn wf(self, b: Buffers) -> bool {
        &&& self.key().len() <= 64
        &&& b.read.start_pos() == 0
        &&& match self {
            HandshakeTask::Writing { .. } => b.send.unsent_bytes().len() > 0 && b.line_ends@.len()
                == 0,
            HandshakeTask::Flushing { .. } => b.line_ends@.len() == 0,
            HandshakeTask::Reading { key, scan } => {
                &&& searched(b.read.pending_bytes(), scan as int, b.line_ends@)
                &&& MAX_HEADER <= b.read.data().len()
            },
        }
    }
}

impl HandshakeProgress {
    pub open spec fn wf(self, b: Buffers) -> bool {
        self matches HandshakeProgress::Pending(task) ==> task.wf(b)
    }
}

/// The session of a fresh connection with the same settings.
pub open spec fn session_reset(s: Session) -> Session {
    Session {
        fragment_opcode: 0,
        close_state: CloseState::Open,
        flood_score: 0,
        negotiated_subprotocol: None,
        ping_deadline: None,
        last_activity: None,
        ..s
    }
}

/// What the response, as far as it is `pending`, does to a handshake.
pub open spec fn response_leads_to(
    pending: Seq<u8>,
    s: Session,
    key: Seq<u8>,
    b1: Buffers,
    s1: Session,
    r: HandshakeProgress,
) -> bool {
    let pending1 = b1.read.pending_bytes();
    match header_search(pending) {
        Err(e) => r == HandshakeProgress::Done(Err(e)) && pending1 == pending && s1 == s,
        Ok(None) => {
            &&& r matches HandshakeProgress::Pending(HandshakeTask::Reading { key: k, .. })
            &&& k@ == key
            &&& pending1 == pending
            &&& s1 == s
        },
        Ok(Some(end)) => match response_result(
            pending.take(end as int),
            accept_for(key),
            opt_text(s.subprotocols),
        ) {
            Err(e) => r == HandshakeProgress::Done(Err(e)) && pending1 == pending && s1 == s,
            Ok(selected) => {
                &&& r == HandshakeProgress::Done(Ok(()))
                &&& pending1 == pending.skip(end as int)
                &&& opt_text(s1.negotiated_subprotocol) == (if selected is Some {
                    selected
                } else {
                    opt_text(s.negotiated_subprotocol)
                })
                &&& s1 == (Session { negotiated_subprotocol: s1.negotiated_subprotocol, ..s })
            },
        },
    }
}

/// What a reply does to a handshake in progress.
pub open spec fn handshake_resumes(
    b: Buffers,
    s: Session,
    task: HandshakeTask,
    reply: Reply,
    b1: Buffers,
    s1: Session,
    r: HandshakeProgress,
) -> bool {
    let pending = b.read.pending_bytes();
    match (task, reply) {
        (HandshakeTask::Writing { key }, Reply::Written(outcome)) => {
            &&& s1 == s
            &&& b1.read == b.read
            &&& match outcome {
                Ok(n) => if n == 0 {
                    &&& r matches HandshakeProgress::Done(Err(ConnectionError::Io(e)))
                    &&& e.kind == IoErrorKind::WriteZero
                    &&& e.message@ == "failed to write whole buffer"@
                    &&& b1 == b
                } else {
                    &&& b1.send.unsent_bytes() == b.send.unsent_bytes().skip(n as int)
                    &&& r == HandshakeProgress::Pending(
                        if n < b.send.unsent_bytes().len() {
                            task
                        } else {
                            HandshakeTask::Flushing { key }
                        },
                    )
                },
                Err(e) => if e.kind == IoErrorKind::Interrupted {
                    &&& r == HandshakeProgress::Pending(task)
                    &&& b1.send.unsent_bytes() == b.send.unsent_bytes()
                } else {
                    r == HandshakeProgress::Done(Err(ConnectionError::Io(e))) && b1 == b
                },
            }
        },
        (HandshakeTask::Flushing { key }, Reply::Flushed(outcome)) => match outcome {
            Err(e) => r == HandshakeProgress::Done(Err(ConnectionError::Io(e))) && b1 == b && s1
                == s,
            Ok(()) => {
                &&& b1.send == b.send
                &&& response_leads_to(pending, s, key@, b1, s1, r)
            },
        },
        (HandshakeTask::Reading { key, scan }, Reply::Read(outcome)) => {
            &&& b1.send == b.send
            &&& match read_once_result(outcome) {
                Err(e) => {
                    &&& r matches HandshakeProgress::Done(Err(c))
                    &&& fill_error_means(e, c)
                    &&& b1.read.pending_bytes() == pending
                    &&& s1 == s
                },
                Ok(arrived) => if arrived {
                    let end = b.read.end_pos() + outcome->Ok_0;
                    response_leads_to(
                        b.read.data().subrange(b.read.start_pos(), end),
                        s,
                        key@,
                        b1,
                        s1,
                        r,
                    )
                } else {
                    r == HandshakeProgress::Pending(task) && b1.read.pending_bytes() == pending
                        && s1 == s
                },
            }
        },
        _ => true,
    }
}

/// The generator gave 16 bytes, which make the key in Base64.
pub open spec fn key_drawn<R: Rng>(rng: &R, key: Seq<u8>, rng_after: &R) -> bool {
    exists|raw: Seq<u8>|
        raw.len() == 16 && key == base64_standard(raw) && #[trigger] rng.gives(raw, rng_after)
}

proof fn lemma_request_not_empty(
    host: Seq<char>,
    path: Seq<char>,
    key: Seq<u8>,
    subprotocols: Option<Seq<char>>,
    headers: Seq<(&str, &str)>,
)
    ensures
        upgrade_request(host, path, key, subprotocols, headers).len() > 0,
{
    reveal_strlit("GET ");
    is_ascii_chars_encode_utf8("GET "@);
}

impl<S, R: Rng> WebSocket<S, R> {
    /// Begin the opening handshake: reset the connection's state, draw a key
    /// and queue the upgrade request.
    pub fn handshake(&mut self, host: &str, path: &str, headers: &[(&str, &str)]) -> (task:
        HandshakeTask)
        requires
            old(self).wf(),
        ensures
            final(self).wf(),
            final(self).stream == old(self).stream,
            final(self).sess == session_reset(old(self).sess),
            final(self).bufs.read.pending_bytes() == Seq::<u8>::empty(),
            final(self).bufs.fragment_buf@ == Seq::<u8>::empty(),
            task is Writing,
            task.wf(final(self).bufs),
            key_drawn(&old(self).rng, task.key(), &final(self).rng),
            task.key().len() == 24,
            forall|i: int| 0 <= i < task.key().len() ==> is_base64_byte(#[trigger] task.key()[i]),
            final(self).bufs.send.unsent_bytes() == upgrade_request(
                host@,
                path@,
                task.key(),
                opt_text(old(self).sess.subprotocols),
                headers@,
            ),
    {
        self.reset();
        let mut raw: [u8; 16] = [0u8; 16];
        self.rng.fill_bytes(&mut raw);
        let key = encode_base64(&raw);
        assert(raw@.len() == 16);
        let buf = self.bufs.send.as_scratch();
        write_request(buf, host, path, key.as_slice(), &self.sess.subprotocols, headers);
        proof {
            let request = upgrade_request(
                host@,
                path@,
                key@,
                opt_text(old(self).sess.subprotocols),
                headers@,
            );
            assert(Seq::<u8>::empty() + request =~= request);
            lemma_request_not_empty(
                host@,
                path@,
                key@,
                opt_text(old(self).sess.subprotocols),
                headers@,
            );
        }
        HandshakeTask::Writing { key }
    }

    /// Forget the connection: buffered data, fragments, close state, flood
    /// score, subprotocol and times.  The settings stay.
    fn reset(&mut self)
        requires
            old(self).wf(),
        ensures
            final(self).wf(),
            final(self).stream == old(self).stream,
            final(self).rng == old(self).rng,
            final(self).sess == session_reset(old(self).sess),
            final(self).bufs.read.start_pos() == 0,
            final(self).bufs.read.pending_bytes() == Seq::<u8>::empty(),
            final(self).bufs.line_ends@ == Seq::<usize>::empty(),
            final(self).bufs.send.unsent_bytes() == Seq::<u8>::empty(),
            final(self).bufs.fragment_buf@ == Seq::<u8>::empty(),
    {
        self.bufs.read.clear();
        self.bufs.line_ends.clear();
        self.bufs.send.clear();
        self.bufs.fragment_buf.clear();
        self.sess.fragment_opcode = 0;
        self.sess.close_state = CloseState::Open;
        self.sess.flood_score = 0;
        self.sess.negotiated_subprotocol = None;
        self.sess.ping_deadline = None;
        self.sess.last_activity = None;
    }

    /// Look at the response as far as it has come in.
    fn examine_response(&mut self, key: Vec<u8>, scan: usize, first: bool) -> (r: HandshakeProgress)
        requires
            old(self).wf(),
            key@.len() <= 64,
            searched(
                old(self).bufs.read.pending_bytes(),
                scan as int,
                old(self).bufs.line_ends@,
            ),
            old(self).bufs.read.start_pos() == 0,
            !first ==> MAX_HEADER <= old(self).bufs.read.data().len(),
        ensures
            final(self).wf(),
            final(self).stream == old(self).stream,
            final(self).rng == old(self).rng,
            final(self).bufs.send == old(self).bufs.send,
            final(self).bufs.fragment_buf == old(self).bufs.fragment_buf,
            r.wf(final(self).bufs),
            response_leads_to(
                old(self).bufs.read.pending_bytes(),
                old(self).sess,
                key@,
                final(self).bufs,
                final(self).sess,
                r,
            ),
    {
        let mut scan: usize = scan;
        let found = search_headers(self.bufs.read.pending(), &mut scan, &mut self.bufs.line_ends);
        proof {
            lemma_header_search_bound(self.bufs.read.pending_bytes());
        }
        match self.bufs.read.read_until(MAX_HEADER, first, found) {
            Err(e) => HandshakeProgress::Done(Err(search_error(e))),
            Ok(None) => HandshakeProgress::Pending(HandshakeTask::Reading { key, scan }),
            Ok(Some(end)) => {
                let data = self.bufs.read.pending();
                let head = slice_subrange(data, 0, end);
                assert(head@ =~= data@.take(end as int));
                match check_response(
                    head,
                    &self.bufs.line_ends,
                    key.as_slice(),
                    &self.sess.subprotocols,
                ) {
                    Err(e) => HandshakeProgress::Done(Err(e)),
                    Ok(selected) => {
                        if selected.is_some() {
                            self.sess.negotiated_subprotocol = selected;
                        }
                        self.bufs.read.consume(end);
                        self.bufs.read.compact();
                        self.bufs.line_ends.clear();
                        shrink_capacity(&mut self.bufs.line_ends, 32);
                        HandshakeProgress::Done(Ok(()))
                    },
                }
            },
        }
    }

    /// Go on with a handshake, given the reply to what its task asked for.
    pub fn resume_handshake(&mut self, task: HandshakeTask, reply: Reply) -> (r: HandshakeProgress)
        requires
            old(self).wf(),
            task.wf(old(self).bufs),
            reply_fits(old(self).bufs, task.spec_request(), reply),
        ensures
            final(self).wf(),
            final(self).stream == old(self).stream,
            final(self).rng == old(self).rng,
            r.wf(final(self).bufs),
            handshake_resumes(
                old(self).bufs,
                old(self).sess,
                task,
                reply,
                final(self).bufs,
                final(self).sess,
                r,
            ),
    {
        match (task, reply) {
            (HandshakeTask::Writing { key }, Reply::Written(outcome)) => {
                if let Ok(n) = outcome {
                    if n == 0 {
                        let e = IoError {
                            kind: IoErrorKind::WriteZero,
                            message: "failed to write whole buffer".to_string(),
                        };
                        return HandshakeProgress::Done(Err(ConnectionError::Io(e)));
                    }
                }
                match self.bufs.send.flush(outcome) {
                    Ok(drained) => {
                        proof {
                            let unsent = old(self).bufs.send.unsent_bytes();
                            assert(unsent.skip(0) =~= unsent);
                        }
                        if drained {
                            self.bufs.send.clear();
                            proof {
                                let unsent = old(self).bufs.send.unsent_bytes();
                                assert(unsent.skip(unsent.len() as int) =~= Seq::<u8>::empty());
                            }
                            HandshakeProgress::Pending(HandshakeTask::Flushing { key })
                        } else {
                            HandshakeProgress::Pending(HandshakeTask::Writing { key })
                        }
                    },
                    Err(e) => HandshakeProgress::Done(Err(e)),
                }
            },
            (HandshakeTask::Flushing { key }, Reply::Flushed(outcome)) => match outcome {
                Err(e) => HandshakeProgress::Done(Err(ConnectionError::Io(e))),
                Ok(()) => {
                    assert(self.bufs.read.pending_bytes().take(0) =~= Seq::<u8>::empty());
                    self.examine_response(key, 0, true)
                },
            },
            (HandshakeTask::Reading { key, scan }, Reply::Read(outcome)) => {
                let ghost before = self.bufs.read.pending_bytes();
                match self.bufs.read.read_once(outcome) {
                    Err(e) => HandshakeProgress::Done(Err(fill_error(e))),
                    Ok(arrived) => {
                        if !arrived {
                            return HandshakeProgress::Pending(
                                HandshakeTask::Reading { key, scan },
                            );
                        }
                        proof {
                            let after = self.bufs.read.pending_bytes();
                            assert(after.take(scan as int) =~= before.take(scan as int));
                            assert forall|k: int| k < scan implies !#[trigger] blank_line_at(
                                after,
                                k,
                            ) by {
                                assert(!blank_line_at(before, k));
                            }
                        }
                        self.examine_response(key, scan, false)
                    },
                }
            },
            (task, _) => HandshakeProgress::Pending(task),
        }
    }
}

/// Strings joined by a comma and a space.
pub open spec fn joined(items: Seq<&str>) -> Seq<char>
    decreases items.len(),
{
    if items.len() == 0 {
        Seq::empty()
    } else if items.len() == 1 {
        items[0]@
    } else {
        joined(items.drop_last()) + ", "@ + items.last()@
    }
}

/// A `WebSocket` as good as new, but for its settings and generator.
pub open spec fn is_fresh<S, R>(ws: WebSocket<S, R>, settings: Session) -> bool {
    &&& ws.wf()
    &&& ws.sess == session_reset(settings)
    &&& ws.bufs.read.pending_bytes() == Seq::<u8>::empty()
    &&& ws.bufs.line_ends@ == Seq::<usize>::empty()
    &&& ws.bufs.send.unsent_bytes() == Seq::<u8>::empty()
    &&& ws.bufs.fragment_buf@ == Seq::<u8>::empty()
}

impl<R: Rng> WebSocket<(), R> {
    /// Create a new WebSocket with internal buffers but no stream.  `rng`
    /// generates frame masking keys, which RFC 6455 section 10.3 wants to be
    /// unpredictable, and drives buffer shrinking.
    pub fn new(rng: R) -> (r: Self)
        ensures
            r.wf(),
            r.rng == rng,
            is_fresh(r, r.sess),
            r.sess.max_payload == DEFAULT_MAX_PAYLOAD,
            r.sess.max_buf_size == DEFAULT_MAX_BUF_SIZE,
            r.sess.frame_budget == usize::MAX,
            r.sess.max_flood_score == 1000,
            r.sess.subprotocols is None,
    {
        WebSocket { stream: (), bufs: Buffers::new(), sess: Session::new(), rng }
    }

    /// Wrap a pre-upgraded stream for framed messaging without handshaking.
    pub fn with_stream<S>(self, stream: S) -> (r: WebSocket<S, R>)
        ensures
            r == (WebSocket { stream, bufs: self.bufs, sess: self.sess, rng: self.rng }),
    {
        self.replace_stream(stream).1
    }

    /// Begin the opening handshake over `stream`: an HTTP/1.1 upgrade request
    /// to `GET {path}` on `{host}`.  On a caller error the WebSocket and the
    /// untouched stream come back.  The handshake's end goes to
    /// [`finish_connect`](WebSocket::finish_connect).
    pub fn try_connect<S>(self, stream: S, host: &str, path: &str) -> (r: Result<
        (WebSocket<S, R>, HandshakeTask),
        (Error, Self, S),
    >)
        requires
            self.wf(),
        ensures
            connect_begins(self, stream, host@, path@, Seq::empty(), r),
    {
        let none: Vec<(&str, &str)> = Vec::new();
        assert(none@ =~= Seq::<(&str, &str)>::empty());
        self.try_connect_with_headers(stream, host, path, none.as_slice())
    }

    /// Like [`try_connect`](Self::try_connect), but sends additional HTTP
    /// headers.  Host, path and headers are checked so that no header can be
    /// smuggled in.
    pub fn try_connect_with_headers<S>(
        self,
        stream: S,
        host: &str,
        path: &str,
        headers: &[(&str, &str)],
    ) -> (r: Result<(WebSocket<S, R>, HandshakeTask), (Error, Self, S)>)
        requires
            self.wf(),
        ensures
            connect_begins(self, stream, host@, path@, headers@, r),
    {
        if !check_request_parts(host, path, headers) {
            return Err((Error::Fatal(CallerError::InvalidHeaderValue), self, stream));
        }
        let mut ws = self.with_stream(stream);
        let task = ws.handshake(host, path, headers);
        Ok((ws, task))
    }

    /// Like [`try_connect`](Self::try_connect), but on failure the WebSocket
    /// and the stream are dropped.
    pub fn connect<S>(self, stream: S, host: &str, path: &str) -> (r: Result<
        (WebSocket<S, R>, HandshakeTask),
        Error,
    >)
        requires
            self.wf(),
        ensures
            match r {
                Ok(started) => connect_begins(
                    self,
                    stream,
                    host@,
                    path@,
                    Seq::empty(),
                    Ok::<(WebSocket<S, R>, HandshakeTask), (Error, Self, S)>(started),
                ),
                Err(e) => connect_begins(
                    self,
                    stream,
                    host@,
                    path@,
                    Seq::empty(),
                    Err::<(WebSocket<S, R>, HandshakeTask), (Error, Self, S)>((e, self, stream)),
                ),
            },
    {
        match self.try_connect(stream, host, path) {
            Ok(started) => Ok(started),
            Err((e, _, _)) => Err(e),
        }
    }

    /// Like [`connect`](Self::connect), but sends additional HTTP headers.
    pub fn connect_with_headers<S>(
        self,
        stream: S,
        host: &str,
        path: &str,
        headers: &[(&str, &str)],
    ) -> (r: Result<(WebSocket<S, R>, HandshakeTask), Error>)
        requires
            self.wf(),
        ensures
            match r {
                Ok(started) => connect_begins(
                    self,
                    stream,
                    host@,
                    path@,
                    headers@,
                    Ok::<(WebSocket<S, R>, HandshakeTask), (Error, Self, S)>(started),
                ),
                Err(e) => connect_begins(
                    self,
                    stream,
                    host@,
                    path@,
                    headers@,
                    Err::<(WebSocket<S, R>, HandshakeTask), (Error, Self, S)>((e, self, stream)),
                ),
            },
    {
        match self.try_connect_with_headers(stream, host, path, headers) {
            Ok(started) => Ok(started),
            Err((e, _, _)) => Err(e),
        }
    }
}

/// How a connection attempt begins.
pub open spec fn connect_begins<S, R: Rng>(
    ws: WebSocket<(), R>,
    stream: S,
    host: Seq<char>,
    path: Seq<char>,
    headers: Seq<(&str, &str)>,
    r: Result<(WebSocket<S, R>, HandshakeTask), (Error, WebSocket<(), R>, S)>,
) -> bool {
    if request_parts_ok(host, path, headers) {
        &&& r matches Ok((ws1, task))
        &&& ws1.wf()
        &&& ws1.stream == stream
        &&& ws1.sess == session_reset(ws.sess)
        &&& ws1.bufs.read.pending_bytes() == Seq::<u8>::empty()
        &&& task is Writing
        &&& task.wf(ws1.bufs)
        &&& key_drawn(&ws.rng, task.key(), &ws1.rng)
        &&& task.key().len() == 24
        &&& forall|i: int| 0 <= i < task.key().len() ==> is_base64_byte(#[trigger] task.key()[i])
        &&& ws1.bufs.send.unsent_bytes() == upgrade_request(
            host,
            path,
            task.key(),
            opt_text(ws.sess.subprotocols),
            headers,
        )
    } else {
        r == Err::<(WebSocket<S, R>, HandshakeTask), (Error, WebSocket<(), R>, S)>(
            (Error::Fatal(CallerError::InvalidHeaderValue), ws, stream),
        )
    }
}

impl<S, R: Rng> WebSocket<S, R> {
    /// The end of a connection attempt: the connected WebSocket, or the error
    /// with a WebSocket reset for another attempt, and the stream.
    pub fn finish_connect(self, outcome: Result<(), ConnectionError>) -> (r: Result<
        Self,
        (Error, WebSocket<(), R>, S),
    >)
        requires
            self.wf(),
        ensures
            match outcome {
                Ok(()) => r == Ok::<Self, (Error, WebSocket<(), R>, S)>(self),
                Err(e) => {
                    &&& r matches Err((error, ws, stream))
                    &&& error == Error::Reconnect(e)
                    &&& is_fresh(ws, self.sess)
                    &&& ws.rng == self.rng
                    &&& stream == self.stream
                },
            },
    {
        match outcome {
            Ok(()) => Ok(self),
            Err(e) => {
                let (ws, stream) = self.disconnect();
                Err((Error::Reconnect(e), ws, stream))
            },
        }
    }

    /// The underlying stream.
    pub fn inner(&self) -> (r: &S)
        ensures
            *r == self.stream,
    {
        &self.stream
    }

    /// The underlying stream, for changing timeouts and the like.
    pub fn inner_mut(&mut self) -> (r: &mut S)
        ensures
            *r == old(self).stream,
            *final(self) == (WebSocket { stream: *final(r), ..*old(self) }),
    {
        &mut self.stream
    }

    /// When the last frame was received, or `None` if there was none since
    /// connecting.
    pub fn last_activity(&self) -> (r: Option<u64>)
        ensures
            r == self.sess.last_activity,
    {
        self.sess.last_activity
    }

    /// Disconnect: the streamless `WebSocket`, whose buffers can be reused for
    /// another connection, and the stream.  Queued send data is discarded.
    pub fn disconnect(self) -> (r: (WebSocket<(), R>, S))
        requires
            self.wf(),
        ensures
            is_fresh(r.0, self.sess),
            r.0.rng == self.rng,
            r.1 == self.stream,
    {
        let (stream, mut ws) = self.replace_stream(());
        ws.reset();
        (ws, stream)
    }

    /// Set the maximum payload size accepted for a single frame or reassembled
    /// message.  Default: 16 MiB.  Clamped to 125..=[`isize::MAX`].
    pub fn max_payload(self, max: usize) -> (r: Self)
        requires
            self.wf(),
        ensures
            r.wf(),
            r == (WebSocket {
                sess: Session {
                    max_payload: if max < 125 {
                        125
                    } else if max > isize::MAX {
                        isize::MAX as usize
                    } else {
                        max
                    },
                    ..self.sess
                },
                ..self
            }),
    {
        let mut ws = self;
        ws.sess.max_payload = if max < 125 {
            125
        } else if max > isize::MAX as usize {
            isize::MAX as usize
        } else {
            max
        };
        ws
    }

    /// Set the target buffer capacity.  Default: 1 MiB.  Clamped to a minimum
    /// of 125.
    pub fn max_buf_size(self, max: usize) -> (r: Self)
        requires
            self.wf(),
        ensures
            r.wf(),
            r == (WebSocket {
                sess: Session {
                    max_buf_size: if max < 125 {
                        125
                    } else {
                        max
                    },
                    ..self.sess
                },
                ..self
            }),
    {
        let mut ws = self;
        ws.sess.max_buf_size = if max < 125 {
            125
        } else {
            max
        };
        ws
    }

    /// Set how many frames a read processes without producing a message before
    /// it is idle.  Default: unlimited.  Clamped to a minimum of 1.
    pub fn frame_budget(self, budget: usize) -> (r: Self)
        requires
            self.wf(),
        ensures
            r.wf(),
            r == (WebSocket {
                sess: Session {
                    frame_budget: if budget < 1 {
                        1
                    } else {
                        budget
                    },
                    ..self.sess
                },
                ..self
            }),
    {
        let mut ws = self;
        ws.sess.frame_budget = if budget < 1 {
            1
        } else {
            budget
        };
        ws
    }

    /// Set the threshold for flood detection.  Default: 1000.
    pub fn max_flood_score(self, max: usize) -> (r: Self)
        requires
            self.wf(),
        ensures
            r.wf(),
            r == (WebSocket {
                sess: Session { max_flood_score: max, ..self.sess },
                ..self
            }),
    {
        let mut ws = self;
        ws.sess.max_flood_score = max;
        ws
    }

    /// Offer subprotocols in the handshake, in preference order.
    pub fn subprotocols(self, protocols: &[&str]) -> (r: Self)
        requires
            self.wf(),
        ensures
            r.wf(),
            r == (WebSocket {
                sess: Session { subprotocols: r.sess.subprotocols, ..self.sess },
                ..self
            }),
            opt_text(r.sess.subprotocols) == (if protocols@.len() == 0 {
                None
            } else {
                Some(joined(protocols@))
            }),
    {
        let mut ws = self;
        if protocols.len() == 0 {
            ws.sess.subprotocols = None;
            return ws;
        }
        let mut list: String = protocols[0].to_string();
        let mut i: usize = 1;
        assert(protocols@.take(1)[0] == protocols@[0]);
        while i < protocols.len()
            invariant
                1 <= i <= protocols@.len(),
                list@ == joined(protocols@.take(i as int)),
            decreases protocols@.len() - i,
        {
            list.append(", ");
            list.append(protocols[i]);
            i = i + 1;
            proof {
                let done = protocols@.take(i as int);
                assert(done.drop_last() =~= protocols@.take(i - 1));
            }
        }
        assert(protocols@.take(i as int) =~= protocols@);
        ws.sess.subprotocols = Some(list);
        ws
    }

    /// The subprotocol that the server selected, if any.
    pub fn subprotocol(&self) -> (r: Option<&str>)
        ensures
            match r {
                Some(s) => opt_text(self.sess.negotiated_subprotocol) == Some(s@),
                None => self.sess.negotiated_subprotocol is None,
            },
    {
        match &self.sess.negotiated_subprotocol {
            Some(s) => Some(s.as_str()),
            None => None,
        }
    }

    /// Move all buffers into a `WebSocket` over another stream.
    fn replace_stream<T>(self, new_stream: T) -> (r: (S, WebSocket<T, R>))
        ensures
            r.0 == self.stream,
            r.1 == (WebSocket {
                stream: new_stream,
                bufs: self.bufs,
                sess: self.sess,
                rng: self.rng,
            }),
    {
        (
            self.stream,
            WebSocket { stream: new_stream, bufs: self.bufs, sess: self.sess, rng: self.rng },
        )
    }
}

} // verus!
