//! Reading messages: frames, fragments, control frames, flood detection.
use vstd::prelude::*;
use vstd::utf8::valid_utf8;

use crate::bytes::{be_value, lemma_be_value_bound, lemma_pow256_values, read_be};
use crate::ext::{capacity_of, decode_text, shrink_capacity, utf8_error_of};
use crate::ws::error::{fill_error, fill_error_means, ConnectionError};
use crate::ws::frame::{
    build_frame, decode_header, parse_header, queued, receivable_close_code,
    validate_recv_close_code, Header, OP_BINARY, OP_CLOSE, OP_CONTINUATION, OP_PING, OP_PONG,
    OP_TEXT,
};
use crate::ws::frame_laws::{law_frame_fits, law_header_need};
use crate::ws::io::{IoError, Reply, Request};
use crate::ws::read_buf::{
    initialized_len, read_once_result, saturating_sum, zero_extended, FillError, ReadBuf,
};
use crate::ws::rng::{drew_odds, Rng};
use crate::ws::send_buf::{write_result, SendBuf};

verus! {

/// Largest response header block that a handshake accepts, and the consumed
/// prefix from which on the read buffer is compacted.
pub const MAX_HEADER: usize = 8192;

/// Wire size of the largest control frame.  Reads of this size or smaller mean
/// that data trickles in.  Also the divisor for the relief that a completed
/// message gives.
pub const SMALL_READ_THRESHOLD: usize = 127;

/// Default maximum payload size: 16 MiB.
pub const DEFAULT_MAX_PAYLOAD: usize = 16_777_216;

/// Default target buffer capacity: 1 MiB.
pub const DEFAULT_MAX_BUF_SIZE: usize = 1_048_576;

/// Close handshake state (RFC 6455 section 7.1).
#[derive(Debug, Clone, Copy, PartialEq, Eq, Structural)]
pub enum CloseState {
    /// Connection is open: reads and writes allowed.
    Open,
    /// We sent a close frame.  Writes are blocked; reads go on until the
    /// server's close frame arrives.
    CloseSent,
    /// Close handshake complete.  No further I/O.
    Closed,
}

/// I/O buffers.  A returned message borrows from these.
pub struct Buffers {
    /// Incoming bytes.  Unfragmented messages are borrowed from here.
    pub read: ReadBuf,
    /// Line-end positions during header parsing.
    pub line_ends: Vec<usize>,
    /// Outgoing bytes.
    pub send: SendBuf,
    /// Reassembly buffer for fragmented messages.
    pub fragment_buf: Vec<u8>,
}

/// Protocol state that is never borrowed by a returned message.
pub struct Session {
    /// Opcode of the first frame of the fragmented message in progress (0 if
    /// there is none).
    pub fragment_opcode: u8,
    pub close_state: CloseState,
    /// Largest payload accepted for a frame or a reassembled message.
    pub max_payload: usize,
    /// Target buffer capacity.
    pub max_buf_size: usize,
    /// Frames processed per call without producing a message.
    pub frame_budget: usize,
    /// Running score for flood detection.
    pub flood_score: usize,
    /// Threshold above which the score is an error.
    pub max_flood_score: usize,
    /// Comma-joined subprotocols to offer.
    pub subprotocols: Option<String>,
    /// The subprotocol that the server selected.
    pub negotiated_subprotocol: Option<String>,
    /// When a frame must have arrived after a ping, in nanoseconds of the
    /// caller's clock.
    pub ping_deadline: Option<u64>,
    /// When the last frame was received, by the same clock.
    pub last_activity: Option<u64>,
}

impl Session {
    /// The configured limits are usable, and fragments are of data frames.
    pub open spec fn wf(self) -> bool {
        &&& 125 <= self.max_payload <= isize::MAX
        &&& self.max_buf_size >= 125
        &&& self.frame_budget >= 1
        &&& self.fragment_opcode == 0 || self.fragment_opcode == OP_TEXT || self.fragment_opcode
            == OP_BINARY
    }

    pub fn new() -> (r: Self)
        ensures
            r.wf(),
            r == (Session {
                fragment_opcode: 0,
                close_state: CloseState::Open,
                max_payload: DEFAULT_MAX_PAYLOAD,
                max_buf_size: DEFAULT_MAX_BUF_SIZE,
                frame_budget: usize::MAX,
                flood_score: 0,
                max_flood_score: 1000,
                subprotocols: None,
                negotiated_subprotocol: None,
                ping_deadline: None,
                last_activity: None,
            }),
    {
        Session {
            fragment_opcode: 0,
            close_state: CloseState::Open,
            max_payload: DEFAULT_MAX_PAYLOAD,
            max_buf_size: DEFAULT_MAX_BUF_SIZE,
            frame_budget: usize::MAX,
            flood_score: 0,
            max_flood_score: 1000,
            subprotocols: None,
            negotiated_subprotocol: None,
            ping_deadline: None,
            last_activity: None,
        }
    }
}

/// Reading, as far as it depends on the bytes and frames seen so far.
pub struct ReadModel {
    /// Received, unprocessed bytes.
    pub pending: Seq<u8>,
    /// What the fragmented message in progress holds (nothing if there is
    /// none).
    pub fragment: Seq<u8>,
    pub fragment_opcode: u8,
    pub flood_score: usize,
    /// Frames that may still be processed.
    pub budget: usize,
    /// Bytes that arrived while the next frame was waited for.
    pub fresh: int,
}

/// Why the frame loop stops.
pub enum Stop {
    /// That many bytes must be pending for it to go on.
    Need(usize),
    Fail(ConnectionError),
    /// A ping with this payload is to be answered.
    Ping(Seq<u8>),
    /// A message with this opcode is complete.
    Message(u8, Seq<u8>),
    /// A close frame with this payload came.
    Close(Seq<u8>),
    /// The frame budget is used up.
    Exhausted,
}

/// The flood score after one more frame: a small read takes one off, the frame
/// adds one.
pub open spec fn flood_after_frame(score: usize, fresh: int) -> usize {
    let eased = if 0 < fresh <= SMALL_READ_THRESHOLD && score > 0 {
        (score - 1) as usize
    } else {
        score
    };
    if eased < usize::MAX {
        (eased + 1) as usize
    } else {
        eased
    }
}

/// The flood score after a completed message of `len` bytes.
pub open spec fn flood_after_message(score: usize, len: int) -> usize {
    let relief = if len / SMALL_READ_THRESHOLD as int > 1 {
        len / SMALL_READ_THRESHOLD as int
    } else {
        1
    };
    if score > relief {
        (score - relief) as usize
    } else {
        0
    }
}

/// One accepted frame: what it does, and whether the loop stops at it.
pub open spec fn frame_effect(
    m: ReadModel,
    max_payload: usize,
    fin: bool,
    opcode: u8,
    payload: Seq<u8>,
) -> (ReadModel, Option<Stop>) {
    if opcode == OP_CONTINUATION {
        let whole = m.fragment + payload;
        if m.fragment_opcode == 0 {
            (m, Some(Stop::Fail(ConnectionError::UnexpectedContinuation)))
        } else if whole.len() > max_payload {
            (m, Some(Stop::Fail(ConnectionError::FragmentedMessageTooLarge(whole.len() as usize))))
        } else if fin {
            (
                ReadModel {
                    fragment: Seq::empty(),
                    fragment_opcode: 0,
                    flood_score: flood_after_message(m.flood_score, whole.len() as int),
                    ..m
                },
                Some(Stop::Message(m.fragment_opcode, whole)),
            )
        } else {
            (ReadModel { fragment: whole, ..m }, None)
        }
    } else if opcode == OP_TEXT || opcode == OP_BINARY {
        if m.fragment_opcode != 0 {
            (m, Some(Stop::Fail(ConnectionError::DataDuringFragmentation)))
        } else if fin {
            (
                ReadModel {
                    flood_score: flood_after_message(m.flood_score, payload.len() as int),
                    ..m
                },
                Some(Stop::Message(opcode, payload)),
            )
        } else {
            (ReadModel { fragment: payload, fragment_opcode: opcode, ..m }, None)
        }
    } else if opcode == OP_CLOSE {
        (m, Some(Stop::Close(payload)))
    } else if opcode == OP_PING {
        (m, Some(Stop::Ping(payload)))
    } else if opcode == OP_PONG {
        (m, None)
    } else {
        (m, Some(Stop::Fail(ConnectionError::UnknownOpcode(opcode))))
    }
}

/// The next frame of the pending bytes.
pub open spec fn frame_step(m: ReadModel, max_payload: usize, max_flood_score: usize) -> (
    ReadModel,
    Option<Stop>,
) {
    match parse_header(m.pending, max_payload) {
        Header::Need(n) => (m, Some(Stop::Need(n))),
        Header::Bad(e) => (m, Some(Stop::Fail(e))),
        Header::Frame { fin, opcode, header_len, payload_len } => {
            let size = header_len + payload_len;
            let m1 = ReadModel {
                pending: m.pending.skip(size),
                flood_score: flood_after_frame(m.flood_score, m.fresh),
                fresh: 0,
                ..m
            };
            if m1.flood_score > max_flood_score {
                (m1, Some(Stop::Fail(ConnectionError::Flood)))
            } else {
                frame_effect(
                    m1,
                    max_payload,
                    fin,
                    opcode,
                    m.pending.subrange(header_len as int, size),
                )
            }
        },
    }
}

/// One frame off the budget.
pub open spec fn spend(m: ReadModel) -> ReadModel {
    ReadModel {
        budget: if m.budget > 0 {
            (m.budget - 1) as usize
        } else {
            0
        },
        ..m
    }
}

/// Frame after frame, until something stops the loop.
pub open spec fn run_frames(m: ReadModel, max_payload: usize, max_flood_score: usize) -> (
    ReadModel,
    Stop,
)
    decreases m.pending.len(),
    when max_payload <= isize::MAX
    via run_frames_decreases
{
    let (m1, stop) = frame_step(m, max_payload, max_flood_score);
    match stop {
        Some(stop) => (m1, stop),
        None => {
            let m2 = spend(m1);
            if m2.budget == 0 {
                (m2, Stop::Exhausted)
            } else {
                run_frames(m2, max_payload, max_flood_score)
            }
        },
    }
}

#[via_fn]
proof fn run_frames_decreases(m: ReadModel, max_payload: usize, max_flood_score: usize) {
    if parse_header(m.pending, max_payload) is Frame {
        law_frame_fits(m.pending, max_payload);
    }
}

/// What a close frame's payload says, or why it is refused.
pub open spec fn close_payload(payload: Seq<u8>) -> Result<(Option<u16>, Seq<u8>), ConnectionError> {
    if payload.len() == 0 {
        Ok((None, Seq::empty()))
    } else if payload.len() == 1 {
        Err(ConnectionError::BadClosePayload)
    } else {
        let code = be_value(payload.take(2)) as u16;
        if !receivable_close_code(code) {
            Err(ConnectionError::InvalidCloseCode(code))
        } else if !valid_utf8(payload.skip(2)) {
            Err(ConnectionError::InvalidUtf8(utf8_error_of(payload.skip(2))))
        } else {
            Ok((Some(code), payload.skip(2)))
        }
    }
}

/// What the loop is told of the next frame.  Payloads are given by their
/// place in the read buffer.
enum FrameEvent {
    Need(usize),
    Fail(ConnectionError),
    Absorbed,
    Ping { start: usize, len: usize },
    Message { opcode: u8, fragmented: bool, start: usize, len: usize },
    Close { start: usize, len: usize },
}

/// A read in progress.  Each task waits for the reply to one request.
#[derive(Debug)]
pub enum ReadTask {
    /// Finishing an earlier send: waiting for a write.
    Draining,
    /// The earlier send is out: waiting for the stream to be flushed.
    DrainFlush,
    /// Waiting for a read, until `need` bytes are pending.  The frame began
    /// when the buffered data ended at `mark`.
    Filling { budget: usize, mark: usize, need: usize },
    /// Answering a ping: waiting for a write.
    Ponging { budget: usize },
    /// Answering a ping: waiting for the stream to be flushed.
    PongFlush { budget: usize },
    /// Echoing a close frame: waiting for a write.
    Closing { code: Option<u16>, start: usize, len: usize },
    /// Echoing a close frame: waiting for the stream to be flushed.
    CloseFlush { code: Option<u16>, start: usize, len: usize },
}

/// How a read ended.  Messages are given by their place in the buffers.
#[derive(Debug)]
pub enum ReadOutcome {
    /// A complete message: in the reassembly buffer if it came in fragments,
    /// else in the read buffer.
    Message { opcode: u8, fragmented: bool, start: usize, len: usize },
    /// A close frame, with its reason in the read buffer.
    Close { code: Option<u16>, start: usize, len: usize },
    /// The frame budget is used up.
    Exhausted,
    /// Frames came in but no message, and the stream has nothing more.
    Heard,
    Failed(ConnectionError),
}

/// Where a read stands.
#[derive(Debug)]
pub enum ReadProgress {
    /// The task's request is to be carried out.
    Pending(ReadTask),
    Done(ReadOutcome),
}

impl ReadTask {
    pub open spec fn spec_request(self) -> Request {
        match self {
            ReadTask::Draining | ReadTask::Ponging { .. } | ReadTask::Closing { .. } => Request::Write,
            ReadTask::DrainFlush | ReadTask::PongFlush { .. } | ReadTask::CloseFlush { .. } =>
                Request::Flush,
            ReadTask::Filling { .. } => Request::Read,
        }
    }

    /// What the task waits for.
    pub fn request(&self) -> (r: Request)
        ensures
            r == self.spec_request(),
    {
        match self {
            ReadTask::Draining | ReadTask::Ponging { .. } | ReadTask::Closing { .. } => Request::Write,
            ReadTask::DrainFlush | ReadTask::PongFlush { .. } | ReadTask::CloseFlush { .. } =>
                Request::Flush,
            ReadTask::Filling { .. } => Request::Read,
        }
    }
}

impl Buffers {
    pub open spec fn wf(self) -> bool {
        self.read.wf() && self.send.wf() && self.fragment_buf@.len() <= isize::MAX
    }

    pub fn new() -> (r: Self)
        ensures
            r.wf(),
            r.read.pending_bytes() == Seq::<u8>::empty(),
            r.send.unsent_bytes() == Seq::<u8>::empty(),
            r.line_ends@ == Seq::<usize>::empty(),
            r.fragment_buf@ == Seq::<u8>::empty(),
    {
        let read = ReadBuf::with_capacity(MAX_HEADER);
        assert(read.pending_bytes() =~= Seq::<u8>::empty());
        Buffers {
            read,
            line_ends: Vec::with_capacity(16),
            send: SendBuf::with_capacity(256),
            fragment_buf: Vec::new(),
        }
    }

    /// The state of reading that these buffers and `sess` stand for.
    pub open spec fn model(self, sess: Session, budget: usize, fresh: int) -> ReadModel {
        ReadModel {
            pending: self.read.pending_bytes(),
            fragment: if sess.fragment_opcode == 0 {
                Seq::empty()
            } else {
                self.fragment_buf@
            },
            fragment_opcode: sess.fragment_opcode,
            flood_score: sess.flood_score,
            budget,
            fresh,
        }
    }

    /// The bytes of a message that was found.
    pub open spec fn message_bytes(self, fragmented: bool, start: usize, len: usize) -> Seq<u8> {
        if fragmented {
            self.fragment_buf@
        } else {
            self.read.data().subrange(start as int, start + len)
        }
    }

    /// Housekeeping between frames: reclaim memory.  Returns where the
    /// buffered data ends.
    fn settle<R: Rng>(&mut self, sess: &Session, rng: &mut R) -> (mark: usize)
        requires
            old(self).wf(),
        ensures
            final(self).wf(),
            settled(*old(self), *sess, old(rng), *final(self), final(rng)),
            mark == final(self).read.end_pos(),
    {
        if self.read.maybe_compact(MAX_HEADER) {
            let ghost c = self.read;
            self.read.maybe_shrink_capacity(sess.max_buf_size, rng);
            assert(old(self).read.compacted(c));
        }
        let ghost mid = *rng;
        assert(old(self).read.tidied(MAX_HEADER, sess.max_buf_size, old(rng), self.read, &mid));
        // Not at completion time: the returned message borrows from the
        // reassembly buffer.
        if sess.fragment_opcode == 0 && capacity_of(&self.fragment_buf) > sess.max_buf_size {
            let odds: bool = rng.one_in_eight_odds();
            assert(drew_odds(&mid, odds, rng));
            if odds {
                self.fragment_buf.clear();
                shrink_capacity(&mut self.fragment_buf, sess.max_buf_size);
                assert(self.fragment_buf@ =~= Seq::<u8>::empty());
            }
        }
        self.read.end_offset()
    }

    /// Process the next frame if it is complete.
    fn next_frame(&mut self, sess: &mut Session, mark: usize, Ghost(budget): Ghost<usize>) -> (r:
        FrameEvent)
        requires
            old(self).wf(),
            old(sess).wf(),
            mark <= old(self).read.end_pos(),
        ensures
            final(self).wf(),
            final(sess).wf(),
            final(self).send == old(self).send,
            final(self).line_ends == old(self).line_ends,
            final(self).read.data() == old(self).read.data(),
            final(self).read.end_pos() == old(self).read.end_pos(),
            r is Absorbed && final(sess).fragment_opcode == 0 ==> final(self).fragment_buf@ == old(
                self,
            ).fragment_buf@,
            ({
                let m = old(self).model(*old(sess), budget, old(self).read.end_pos() - mark);
                let (m1, stop) = frame_step(m, old(sess).max_payload, old(sess).max_flood_score);
                &&& final(self).model(*final(sess), budget, m1.fresh) == m1
                &&& *final(sess) == (Session {
                    fragment_opcode: m1.fragment_opcode,
                    flood_score: m1.flood_score,
                    ..*old(sess)
                })
                &&& match r {
                    FrameEvent::Need(n) => stop == Some(Stop::Need(n)) && *final(self) == *old(
                        self,
                    ),
                    FrameEvent::Fail(e) => stop == Some(Stop::Fail(e)),
                    FrameEvent::Absorbed => stop is None && m1.pending.len() < m.pending.len()
                        && m1.fresh == 0,
                    FrameEvent::Ping { start, len } => {
                        &&& stop == Some(
                            Stop::Ping(final(self).message_bytes(false, start, len)),
                        )
                        &&& start + len <= final(self).read.data().len()
                    },
                    FrameEvent::Message { opcode, fragmented, start, len } => {
                        &&& stop == Some(
                            Stop::Message(
                                opcode,
                                final(self).message_bytes(fragmented, start, len),
                            ),
                        )
                        &&& start + len <= final(self).read.data().len()
                        &&& opcode == OP_TEXT || opcode == OP_BINARY
                    },
                    FrameEvent::Close { start, len } => {
                        &&& stop == Some(
                            Stop::Close(final(self).message_bytes(false, start, len)),
                        )
                        &&& start + len <= final(self).read.data().len()
                        &&& len <= 125
                    },
                }
            }),
    {
        let ghost m = self.model(*sess, budget, self.read.end_pos() - mark);
        let ghost data = self.read.data();
        match decode_header(self.read.pending(), sess.max_payload) {
            Header::Need(n) => FrameEvent::Need(n),
            Header::Bad(e) => FrameEvent::Fail(e),
            Header::Frame { fin, opcode, header_len, payload_len } => {
                proof {
                    law_frame_fits(self.read.pending_bytes(), sess.max_payload);
                }
                let fresh: usize = self.read.end_offset() - mark;
                self.read.consume(header_len + payload_len);
                if fresh > 0 && fresh <= SMALL_READ_THRESHOLD {
                    sess.flood_score = sess.flood_score.saturating_sub(1);
                }
                sess.flood_score = sess.flood_score.saturating_add(1);
                if sess.flood_score > sess.max_flood_score {
                    return FrameEvent::Fail(ConnectionError::Flood);
                }
                let pos: usize = self.read.start_offset();
                let start: usize = pos - payload_len;
                let ghost payload = m.pending.subrange(
                    header_len as int,
                    header_len + payload_len,
                );
                assert(data.subrange(start as int, pos as int) =~= payload);
                if opcode == OP_CONTINUATION {
                    if sess.fragment_opcode == 0 {
                        return FrameEvent::Fail(ConnectionError::UnexpectedContinuation);
                    }
                    let total: usize = self.fragment_buf.len() + payload_len;
                    if total > sess.max_payload {
                        return FrameEvent::Fail(ConnectionError::FragmentedMessageTooLarge(total));
                    }
                    self.fragment_buf.extend_from_slice(self.read.slice(start..pos));
                    assert(self.fragment_buf@ =~= m.fragment + payload);
                    if fin {
                        let opcode: u8 = sess.fragment_opcode;
                        sess.fragment_opcode = 0;
                        relieve(sess, total);
                        return FrameEvent::Message {
                            opcode,
                            fragmented: true,
                            start,
                            len: payload_len,
                        };
                    }
                    FrameEvent::Absorbed
                } else if opcode == OP_TEXT || opcode == OP_BINARY {
                    if sess.fragment_opcode != 0 {
                        return FrameEvent::Fail(ConnectionError::DataDuringFragmentation);
                    }
                    if fin {
                        relieve(sess, payload_len);
                        return FrameEvent::Message {
                            opcode,
                            fragmented: false,
                            start,
                            len: payload_len,
                        };
                    }
                    self.fragment_buf.clear();
                    self.fragment_buf.extend_from_slice(self.read.slice(start..pos));
                    assert(self.fragment_buf@ =~= payload);
                    sess.fragment_opcode = opcode;
                    FrameEvent::Absorbed
                } else if opcode == OP_CLOSE {
                    FrameEvent::Close { start, len: payload_len }
                } else if opcode == OP_PING {
                    FrameEvent::Ping { start, len: payload_len }
                } else if opcode == OP_PONG {
                    FrameEvent::Absorbed
                } else {
                    FrameEvent::Fail(ConnectionError::UnknownOpcode(opcode))
                }
            },
        }
    }
}

/// A completed message takes pressure off the flood score, the more the larger
/// it is.
fn relieve(sess: &mut Session, len: usize)
    ensures
        *final(sess) == (Session {
            flood_score: flood_after_message(old(sess).flood_score, len as int),
            ..*old(sess)
        }),
{
    let share: usize = len / SMALL_READ_THRESHOLD;
    let relief: usize = if share > 1 {
        share
    } else {
        1
    };
    sess.flood_score = sess.flood_score.saturating_sub(relief);
}

/// The part of a close payload that is echoed: the status code, if any.
pub open spec fn close_echo(payload: Seq<u8>) -> Seq<u8> {
    if payload.len() >= 2 {
        payload.take(2)
    } else {
        payload
    }
}

/// The bytes of a received close reason are in place.
pub open spec fn reason_at(b: Buffers, start: usize, len: usize, reason: Seq<u8>) -> bool {
    &&& start + len <= b.read.data().len()
    &&& b.message_bytes(false, start, len) == reason
    &&& valid_utf8(reason)
}

/// Running the frame loop from `m`, with `unsent` waiting to be sent, under
/// session `s`, leaves buffers `b1` and session `s1` and comes to `r`.  The
/// generator is `rng` when the loop stops, and `rng1` once a reply is built.
pub open spec fn frames_lead_to<R: Rng>(
    m: ReadModel,
    unsent: Seq<u8>,
    s: Session,
    rng: R,
    b1: Buffers,
    s1: Session,
    rng1: R,
    r: ReadProgress,
) -> bool {
    let (m1, stop) = run_frames(m, s.max_payload, s.max_flood_score);
    &&& s1 == (Session {
        fragment_opcode: m1.fragment_opcode,
        flood_score: m1.flood_score,
        close_state: if stop is Close {
            CloseState::Closed
        } else {
            s.close_state
        },
        ..s
    })
    &&& b1.model(s1, m1.budget, m1.fresh) == m1
    &&& match stop {
        Stop::Need(n) => {
            &&& r matches ReadProgress::Pending(ReadTask::Filling { budget, mark, need })
            &&& budget == m1.budget
            &&& need == n
            &&& b1.read.end_pos() - mark == m1.fresh
            &&& b1.send.unsent_bytes() == unsent && rng1 == rng
        },
        Stop::Fail(e) => {
            &&& r == ReadProgress::Done(ReadOutcome::Failed(e))
            &&& b1.send.unsent_bytes() == unsent && rng1 == rng
        },
        Stop::Exhausted => {
            &&& r == ReadProgress::Done(ReadOutcome::Exhausted)
            &&& b1.send.unsent_bytes() == unsent && rng1 == rng
        },
        Stop::Message(op, bytes) => {
            &&& r matches ReadProgress::Done(
                ReadOutcome::Message { opcode, fragmented, start, len },
            )
            &&& opcode == op
            &&& b1.message_bytes(fragmented, start, len) == bytes
            &&& b1.send.unsent_bytes() == unsent && rng1 == rng
        },
        Stop::Ping(payload) => {
            &&& r matches ReadProgress::Pending(ReadTask::Ponging { budget })
            &&& budget == m1.budget
            &&& if unsent.len() < s.max_buf_size {
                queued(unsent, b1.send.unsent_bytes(), OP_PONG, payload, &rng, &rng1)
            } else {
                b1.send.unsent_bytes() == unsent && rng1 == rng
            }
        },
        Stop::Close(payload) => match close_payload(payload) {
            Err(e) => {
                &&& r == ReadProgress::Done(ReadOutcome::Failed(e))
                &&& b1.send.unsent_bytes() == unsent && rng1 == rng
            },
            Ok((status, reason)) => if s.close_state == CloseState::Open {
                &&& r matches ReadProgress::Pending(ReadTask::Closing { code, start, len })
                &&& code == status
                &&& reason_at(b1, start, len, reason)
                &&& queued(
                    unsent,
                    b1.send.unsent_bytes(),
                    OP_CLOSE,
                    close_echo(payload),
                    &rng,
                    &rng1,
                )
            } else {
                &&& r matches ReadProgress::Done(ReadOutcome::Close { code, start, len })
                &&& code == status
                &&& reason_at(b1, start, len, reason)
                &&& b1.send.unsent_bytes() == unsent && rng1 == rng
            },
        },
    }
}

/// What the odds say of a reassembly buffer that is not in use: it is emptied,
/// or stays.
pub open spec fn dropped_by_odds<R: Rng>(
    held: Seq<u8>,
    rng: &R,
    after: Seq<u8>,
    rng_after: &R,
) -> bool {
    exists|odds: bool|
        #[trigger] drew_odds(rng, odds, rng_after) && after == (if odds {
            Seq::empty()
        } else {
            held
        })
}

/// Housekeeping of the reassembly buffer: while it is in use, nothing happens;
/// else the odds may be drawn, and are when it holds more than `max_cap` bytes.
pub open spec fn fragments_tidied<R: Rng>(
    held: Seq<u8>,
    in_use: bool,
    max_cap: usize,
    rng: &R,
    after: Seq<u8>,
    rng_after: &R,
) -> bool {
    let same = after == held && *rng_after == *rng;
    &&& in_use ==> same
    &&& !in_use && held.len() > max_cap ==> dropped_by_odds(held, rng, after, rng_after)
    &&& same || dropped_by_odds(held, rng, after, rng_after)
}

/// Housekeeping between frames: the read buffer, then the reassembly buffer.
pub open spec fn settled<R: Rng>(b: Buffers, s: Session, rng: &R, b1: Buffers, rng1: &R) -> bool {
    &&& b1.send == b.send
    &&& b1.line_ends == b.line_ends
    &&& b1.read.pending_bytes() == b.read.pending_bytes()
    &&& exists|mid: R|
        {
            &&& #[trigger] b.read.tidied(MAX_HEADER, s.max_buf_size, rng, b1.read, &mid)
            &&& fragments_tidied(
                b.fragment_buf@,
                s.fragment_opcode != 0,
                s.max_buf_size,
                &mid,
                b1.fragment_buf@,
                rng1,
            )
        }
}

/// The frame loop before a frame.
pub struct LoopState<R> {
    pub bufs: Buffers,
    pub sess: Session,
    pub rng: R,
    /// Frames that may still be processed.
    pub budget: usize,
    /// Where the buffered data ended when the frame was begun.
    pub mark: int,
}

impl<R: Rng> LoopState<R> {
    pub open spec fn model(self) -> ReadModel {
        self.bufs.model(self.sess, self.budget, self.bufs.read.end_pos() - self.mark)
    }

    /// The buffers with that frame taken in.
    pub open spec fn took(self, m: ReadModel, taken: Buffers) -> bool {
        &&& taken.send == self.bufs.send
        &&& taken.line_ends == self.bufs.line_ends
        &&& taken.read.data() == self.bufs.read.data()
        &&& taken.read.end_pos() == self.bufs.read.end_pos()
        &&& taken.read.pending_bytes() == m.pending
        &&& taken.fragment_buf@ == (if m.fragment_opcode == 0 {
            self.bufs.fragment_buf@
        } else {
            m.fragment
        })
    }

    /// A frame that the loop does not stop at, then housekeeping.
    pub open spec fn round(self, next: Self) -> bool {
        let (m, stop) = frame_step(
            self.model(),
            self.sess.max_payload,
            self.sess.max_flood_score,
        );
        &&& stop is None
        &&& next.budget == self.budget - 1
        &&& next.budget > 0
        &&& next.sess == (Session {
            fragment_opcode: m.fragment_opcode,
            flood_score: m.flood_score,
            ..self.sess
        })
        &&& next.mark == next.bufs.read.end_pos()
        &&& exists|taken: Buffers|
            #[trigger] self.took(m, taken) && settled(
                taken,
                next.sess,
                &self.rng,
                next.bufs,
                &next.rng,
            )
    }
}

/// That many rounds of the frame loop.
pub open spec fn rounds<R: Rng>(first: LoopState<R>, n: nat, last: LoopState<R>) -> bool
    decreases n,
{
    if n == 0 {
        first == last
    } else {
        exists|mid: LoopState<R>| rounds(first, (n - 1) as nat, mid) && #[trigger] mid.round(last)
    }
}

proof fn lemma_one_more_round<R: Rng>(
    first: LoopState<R>,
    n: nat,
    last: LoopState<R>,
    taken: Buffers,
    next: LoopState<R>,
)
    requires
        rounds(first, n, last),
        ({
            let (m, stop) = frame_step(
                last.model(),
                last.sess.max_payload,
                last.sess.max_flood_score,
            );
            &&& stop is None
            &&& last.took(m, taken)
            &&& next.sess == (Session {
                fragment_opcode: m.fragment_opcode,
                flood_score: m.flood_score,
                ..last.sess
            })
        }),
        settled(taken, next.sess, &last.rng, next.bufs, &next.rng),
        next.budget == last.budget - 1,
        next.budget > 0,
        next.mark == next.bufs.read.end_pos(),
    ensures
        rounds(first, n + 1, next),
{
    assert(last.round(next));
    assert(rounds(first, ((n + 1) - 1) as nat, last));
}

/// The last frame leaves the read buffer's memory as it is; to wait for more
/// initializes some.
pub open spec fn loop_stops(b: ReadBuf, b1: ReadBuf, r: ReadProgress) -> bool {
    &&& b1.end_pos() == b.end_pos()
    &&& match r {
        ReadProgress::Pending(ReadTask::Filling { budget, mark, need }) => {
            &&& b1.start_pos() == b.start_pos()
            &&& b1.data() == zero_extended(
                b.data(),
                initialized_len(saturating_sum(b.start_pos(), need as int), b.end_pos()),
            )
        },
        _ => b1.data() == b.data(),
    }
}

/// The frame loop, begun at `x`, leads to `r`.
pub open spec fn loop_leads_to<R: Rng>(
    x: LoopState<R>,
    b1: Buffers,
    s1: Session,
    rng1: R,
    r: ReadProgress,
) -> bool {
    exists|n: nat, last: LoopState<R>|
        {
            &&& #[trigger] rounds(x, n, last)
            &&& loop_stops(last.bufs.read, b1.read, r)
            &&& frames_lead_to(
                x.model(),
                x.bufs.send.unsent_bytes(),
                x.sess,
                last.rng,
                b1,
                s1,
                rng1,
                r,
            )
        }
}

impl ReadTask {
    /// The task fits the buffers that it is about.
    pub open spec fn wf(self, b: Buffers) -> bool {
        match self {
            ReadTask::Draining | ReadTask::Ponging { .. } => b.send.unsent_bytes().len() > 0,
            ReadTask::DrainFlush | ReadTask::PongFlush { .. } => true,
            ReadTask::Filling { budget, mark, need } => mark <= b.read.end_pos()
                && b.read.pending_bytes().len() < need && saturating_sum(
                b.read.start_pos(),
                need as int,
            ) <= b.read.data().len(),
            ReadTask::Closing { code, start, len } => b.send.unsent_bytes().len() > 0 && start + len
                <= b.read.data().len() && valid_utf8(b.message_bytes(false, start, len)),
            ReadTask::CloseFlush { code, start, len } => start + len <= b.read.data().len()
                && valid_utf8(b.message_bytes(false, start, len)),
        }
    }
}

impl ReadOutcome {
    /// The outcome fits the buffers that it is about.
    pub open spec fn wf(self, b: Buffers) -> bool {
        match self {
            ReadOutcome::Message { opcode, fragmented, start, len } => start + len
                <= b.read.data().len() && (opcode == OP_TEXT || opcode == OP_BINARY),
            ReadOutcome::Close { code, start, len } => start + len <= b.read.data().len()
                && valid_utf8(b.message_bytes(false, start, len)),
            ReadOutcome::Exhausted | ReadOutcome::Heard | ReadOutcome::Failed(_) => true,
        }
    }
}

impl ReadProgress {
    pub open spec fn wf(self, b: Buffers) -> bool {
        match self {
            ReadProgress::Pending(task) => task.wf(b),
            ReadProgress::Done(outcome) => outcome.wf(b),
        }
    }
}

impl Buffers {
    /// Handle an incoming close frame: validate, echo if needed.
    fn handle_close<R: Rng>(&mut self, rng: &mut R, start: usize, len: usize, echo: bool) -> (r:
        ReadProgress)
        requires
            old(self).wf(),
            start + len <= old(self).read.data().len(),
            len <= 125,
        ensures
            final(self).wf(),
            final(self).read == old(self).read,
            final(self).line_ends == old(self).line_ends,
            final(self).fragment_buf == old(self).fragment_buf,
            r.wf(*final(self)),
            ({
                let payload = old(self).message_bytes(false, start, len);
                let before = old(self).send.unsent_bytes();
                let after = final(self).send.unsent_bytes();
                match close_payload(payload) {
                    Err(e) => r == ReadProgress::Done(ReadOutcome::Failed(e)) && after == before
                        && *final(rng) == *old(rng),
                    Ok((status, reason)) => if echo {
                        &&& r matches ReadProgress::Pending(ReadTask::Closing { code, start, len })
                        &&& code == status
                        &&& reason_at(*final(self), start, len, reason)
                        &&& queued(
                            before,
                            after,
                            OP_CLOSE,
                            close_echo(payload),
                            old(rng),
                            final(rng),
                        )
                    } else {
                        &&& r matches ReadProgress::Done(ReadOutcome::Close { code, start, len })
                        &&& code == status
                        &&& reason_at(*final(self), start, len, reason)
                        &&& after == before && *final(rng) == *old(rng)
                    },
                }
            }),
    {
        let ghost payload = self.message_bytes(false, start, len);
        if len == 1 {
            return ReadProgress::Done(ReadOutcome::Failed(ConnectionError::BadClosePayload));
        }
        let mut code: Option<u16> = None;
        let mut reason_start: usize = start;
        let mut reason_len: usize = 0;
        if len >= 2 {
            let status: u64 = read_be(self.read.slice(start..start + 2));
            proof {
                assert(self.read.data().subrange(start as int, start + 2) =~= payload.take(2));
                lemma_be_value_bound(payload.take(2));
                lemma_pow256_values();
                assert(payload.skip(2) =~= self.read.data().subrange(start + 2, start + len));
            }
            let status: u16 = status as u16;
            match validate_recv_close_code(status) {
                Ok(()) => {},
                Err(e) => {
                    return ReadProgress::Done(ReadOutcome::Failed(e));
                },
            }
            reason_start = start + 2;
            reason_len = len - 2;
            match decode_text(self.read.slice(reason_start..start + len)) {
                Ok(_) => {},
                Err(e) => {
                    return ReadProgress::Done(ReadOutcome::Failed(ConnectionError::InvalidUtf8(e)));
                },
            }
            code = Some(status);
        } else {
            assert(self.message_bytes(false, start, 0) =~= Seq::<u8>::empty());
            assert(valid_utf8(Seq::<u8>::empty()));
        }
        if echo {
            let echo_len: usize = if len >= 2 {
                2
            } else {
                len
            };
            assert(self.read.data().subrange(start as int, start + echo_len) =~= close_echo(payload));
            build_frame(&mut self.send, rng, OP_CLOSE, self.read.slice(start..start + echo_len));
            ReadProgress::Pending(
                ReadTask::Closing { code, start: reason_start, len: reason_len },
            )
        } else {
            ReadProgress::Done(ReadOutcome::Close { code, start: reason_start, len: reason_len })
        }
    }

    /// Process frames until more input, a reply or the caller is needed.
    fn run<R: Rng>(
        &mut self,
        sess: &mut Session,
        rng: &mut R,
        budget: usize,
        mark: usize,
    ) -> (r: ReadProgress)
        requires
            old(self).wf(),
            old(sess).wf(),
            mark <= old(self).read.end_pos(),
        ensures
            final(self).wf(),
            final(sess).wf(),
            final(self).line_ends == old(self).line_ends,
            r.wf(*final(self)),
            loop_leads_to(
                LoopState {
                    bufs: *old(self),
                    sess: *old(sess),
                    rng: *old(rng),
                    budget,
                    mark: mark as int,
                },
                *final(self),
                *final(sess),
                *final(rng),
                r,
            ),
    {
        let ghost x = LoopState {
            bufs: *self,
            sess: *sess,
            rng: *rng,
            budget,
            mark: mark as int,
        };
        let ghost m0 = x.model();
        let ghost s0 = *sess;
        let ghost b0 = *self;
        let ghost mut n: nat = 0;
        let mut left: usize = budget;
        let mut from: usize = mark;
        loop
            invariant
                self.wf(),
                sess.wf(),
                from <= self.read.end_pos(),
                b0 == *old(self),
                s0 == *old(sess),
                x == (LoopState {
                    bufs: b0,
                    sess: s0,
                    rng: *old(rng),
                    budget,
                    mark: mark as int,
                }),
                m0 == x.model(),
                rounds(
                    x,
                    n,
                    LoopState {
                        bufs: *self,
                        sess: *sess,
                        rng: *rng,
                        budget: left,
                        mark: from as int,
                    },
                ),
                self.send == b0.send,
                self.line_ends == b0.line_ends,
                *sess == (Session {
                    fragment_opcode: sess.fragment_opcode,
                    flood_score: sess.flood_score,
                    ..s0
                }),
                run_frames(
                    self.model(*sess, left, self.read.end_pos() - from),
                    s0.max_payload,
                    s0.max_flood_score,
                ) == run_frames(m0, s0.max_payload, s0.max_flood_score),
            decreases self.read.pending_bytes().len(),
        {
            let ghost cur = LoopState {
                bufs: *self,
                sess: *sess,
                rng: *rng,
                budget: left,
                mark: from as int,
            };
            match self.next_frame(sess, from, Ghost(left)) {
                FrameEvent::Need(need) => {
                    proof {
                        law_header_need(
                            self.read.pending_bytes(),
                            Seq::empty(),
                            sess.max_payload,
                        );
                    }
                    self.read.fill_from(need);
                    return ReadProgress::Pending(ReadTask::Filling { budget: left, mark: from, need });
                },
                FrameEvent::Fail(e) => {
                    return ReadProgress::Done(ReadOutcome::Failed(e));
                },
                FrameEvent::Absorbed => {
                    left = left.saturating_sub(1);
                    if left == 0 {
                        return ReadProgress::Done(ReadOutcome::Exhausted);
                    }
                    let ghost taken = *self;
                    from = self.settle(sess, rng);
                    proof {
                        let next = LoopState {
                            bufs: *self,
                            sess: *sess,
                            rng: *rng,
                            budget: left,
                            mark: from as int,
                        };
                        lemma_one_more_round(x, n, cur, taken, next);
                        n = n + 1;
                    }
                },
                FrameEvent::Ping { start, len } => {
                    if self.send.pending_len() < sess.max_buf_size {
                        build_frame(
                            &mut self.send,
                            rng,
                            OP_PONG,
                            self.read.slice(start..start + len),
                        );
                    }
                    return ReadProgress::Pending(ReadTask::Ponging { budget: left });
                },
                FrameEvent::Message { opcode, fragmented, start, len } => {
                    return ReadProgress::Done(
                        ReadOutcome::Message { opcode, fragmented, start, len },
                    );
                },
                FrameEvent::Close { start, len } => {
                    let echo: bool = sess.close_state == CloseState::Open;
                    sess.close_state = CloseState::Closed;
                    return self.handle_close(rng, start, len, echo);
                },
            }
        }
    }
}

/// Housekeeping and then the frame loop lead to `r`.
pub open spec fn fresh_frames_lead_to<R: Rng>(
    b: Buffers,
    s: Session,
    rng: R,
    budget: usize,
    b1: Buffers,
    s1: Session,
    rng1: R,
    r: ReadProgress,
) -> bool {
    exists|bufs: Buffers, mid: R|
        #[trigger] settled(b, s, &rng, bufs, &mid) && loop_leads_to(
            LoopState { bufs, sess: s, rng: mid, budget, mark: bufs.read.end_pos() },
            b1,
            s1,
            rng1,
            r,
        )
}

/// The buffers with the next `n` bytes of the spare region received.
pub open spec fn received(b: Buffers, n: int, b1: Buffers) -> bool {
    &&& b1.send == b.send
    &&& b1.line_ends == b.line_ends
    &&& b1.fragment_buf == b.fragment_buf
    &&& b1.read.data() == b.read.data()
    &&& b1.read.start_pos() == b.read.start_pos()
    &&& b1.read.end_pos() == b.read.end_pos() + n
}

/// The buffers with the send buffer perhaps shrunk.
pub open spec fn sent_shrunk<R: Rng>(b: Buffers, s: Session, rng: &R, b1: Buffers, rng1: &R) -> bool {
    &&& b1.read == b.read
    &&& b1.line_ends == b.line_ends
    &&& b1.fragment_buf == b.fragment_buf
    &&& b.send.shrinks_to(s.max_buf_size, rng, b1.send, rng1)
}

/// How many bytes a read gave.
pub open spec fn bytes_read(outcome: Result<usize, IoError>) -> int {
    match outcome {
        Ok(n) => n as int,
        Err(_) => 0,
    }
}

/// What a reply does to a read in progress.
pub open spec fn read_resumes<R: Rng>(
    b: Buffers,
    s: Session,
    rng: R,
    task: ReadTask,
    reply: Reply,
    b1: Buffers,
    s1: Session,
    rng1: R,
    r: ReadProgress,
) -> bool {
    let unsent = b.send.unsent_bytes();
    let unsent1 = b1.send.unsent_bytes();
    match (task, reply) {
        (ReadTask::Draining, Reply::Written(outcome)) => match write_result(outcome) {
            Ok(n) => {
                &&& unsent1 == unsent.skip(n)
                &&& b1.read == b.read && b1.fragment_buf == b.fragment_buf && s1 == s
                &&& rng1 == rng
                &&& r == ReadProgress::Pending(
                    if unsent1.len() > 0 {
                        ReadTask::Draining
                    } else {
                        ReadTask::DrainFlush
                    },
                )
            },
            // Only writing is stuck: go on with reading.
            Err(e) => if e.spec_is_would_block() {
                fresh_frames_lead_to(b, s, rng, s.frame_budget, b1, s1, rng1, r)
            } else {
                &&& b1 == b && s1 == s && rng1 == rng
                &&& r == ReadProgress::Done(ReadOutcome::Failed(e))
            },
        },
        (ReadTask::DrainFlush, Reply::Flushed(_)) => exists|bufs: Buffers, mid: R|
            #[trigger] sent_shrunk(b, s, &rng, bufs, &mid) && fresh_frames_lead_to(
                bufs,
                s,
                mid,
                s.frame_budget,
                b1,
                s1,
                rng1,
                r,
            ),
        (ReadTask::Filling { budget, mark, need }, Reply::Read(outcome)) => {
            let n = bytes_read(outcome);
            match read_once_result(outcome) {
                Err(e) => {
                    &&& received(b, n, b1) && s1 == s && rng1 == rng
                    // A frame that was taken in has come off the budget.
                    &&& if e is WouldBlock && budget < s.frame_budget {
                        r == ReadProgress::Done(ReadOutcome::Heard)
                    } else {
                        r matches ReadProgress::Done(ReadOutcome::Failed(c)) && fill_error_means(
                            e,
                            c,
                        )
                    }
                },
                Ok(arrived) => if !arrived || b.read.pending_bytes().len() + n < need {
                    &&& received(b, n, b1) && s1 == s && rng1 == rng
                    &&& r == ReadProgress::Pending(task)
                } else {
                    exists|bufs: Buffers|
                        #[trigger] received(b, n, bufs) && loop_leads_to(
                            LoopState { bufs, sess: s, rng, budget, mark: mark as int },
                            b1,
                            s1,
                            rng1,
                            r,
                        )
                },
            }
        },
        (ReadTask::Ponging { budget }, Reply::Written(outcome)) => {
            &&& b1.read == b.read && b1.fragment_buf == b.fragment_buf && s1 == s && rng1 == rng
            &&& best_effort_write(unsent, outcome, unsent1)
            &&& r == ReadProgress::Pending(
                if write_result(outcome) is Ok && unsent1.len() > 0 {
                    task
                } else {
                    ReadTask::PongFlush { budget }
                },
            )
        },
        (ReadTask::PongFlush { budget }, Reply::Flushed(_)) => {
            if budget <= 1 {
                &&& b1 == b && s1 == s && rng1 == rng
                &&& r == ReadProgress::Done(ReadOutcome::Exhausted)
            } else {
                fresh_frames_lead_to(b, s, rng, (budget - 1) as usize, b1, s1, rng1, r)
            }
        },
        (ReadTask::Closing { code, start, len }, Reply::Written(outcome)) => {
            &&& b1.read == b.read && b1.fragment_buf == b.fragment_buf && s1 == s && rng1 == rng
            &&& best_effort_write(unsent, outcome, unsent1)
            &&& r == ReadProgress::Pending(
                if write_result(outcome) is Ok && unsent1.len() > 0 {
                    task
                } else {
                    ReadTask::CloseFlush { code, start, len }
                },
            )
        },
        (ReadTask::CloseFlush { code, start, len }, Reply::Flushed(_)) => {
            &&& b1 == b && s1 == s && rng1 == rng
            &&& r == ReadProgress::Done(ReadOutcome::Close { code, start, len })
        },
        _ => true,
    }
}

/// What a write whose failure does not matter leaves unsent.
pub open spec fn best_effort_write(
    unsent: Seq<u8>,
    outcome: Result<usize, IoError>,
    unsent1: Seq<u8>,
) -> bool {
    match write_result(outcome) {
        Ok(n) => unsent1 == unsent.skip(n),
        Err(_) => unsent1 == unsent,
    }
}

/// The reply is to the task's request, and no call moved more bytes than it
/// was given.
pub open spec fn reply_fits(b: Buffers, request: Request, reply: Reply) -> bool {
    &&& reply.answers(request)
    &&& reply matches Reply::Read(Ok(n)) ==> n <= b.read.spare_len_spec()
    &&& reply matches Reply::Written(Ok(n)) ==> n <= b.send.unsent_bytes().len()
}

impl Buffers {
    /// Begin to read the next message.  If an earlier send (a pong, say) is
    /// only partly out, it is finished first.
    pub fn read_message<R: Rng>(&mut self, sess: &mut Session, rng: &mut R) -> (r: ReadProgress)
        requires
            old(self).wf(),
            old(sess).wf(),
        ensures
            final(self).wf(),
            final(sess).wf(),
            final(self).line_ends == old(self).line_ends,
            r.wf(*final(self)),
            if old(self).send.unsent_bytes().len() > 0 {
                &&& r == ReadProgress::Pending(ReadTask::Draining)
                &&& *final(self) == *old(self) && *final(sess) == *old(sess)
                &&& *final(rng) == *old(rng)
            } else {
                fresh_frames_lead_to(
                    *old(self),
                    *old(sess),
                    *old(rng),
                    old(sess).frame_budget,
                    *final(self),
                    *final(sess),
                    *final(rng),
                    r,
                )
            },
    {
        if self.send.has_pending() {
            return ReadProgress::Pending(ReadTask::Draining);
        }
        let budget: usize = sess.frame_budget;
        self.settle_and_run(sess, rng, budget)
    }

    /// Housekeeping, then frames.
    fn settle_and_run<R: Rng>(&mut self, sess: &mut Session, rng: &mut R, budget: usize) -> (r:
        ReadProgress)
        requires
            old(self).wf(),
            old(sess).wf(),
        ensures
            final(self).wf(),
            final(sess).wf(),
            final(self).line_ends == old(self).line_ends,
            r.wf(*final(self)),
            fresh_frames_lead_to(
                *old(self),
                *old(sess),
                *old(rng),
                budget,
                *final(self),
                *final(sess),
                *final(rng),
                r,
            ),
    {
        let mark: usize = self.settle(sess, rng);
        assert(settled(*old(self), *sess, old(rng), *self, rng));
        self.run(sess, rng, budget, mark)
    }

    /// Go on with a read, given the reply to what its task asked for.
    pub fn resume_read<R: Rng>(
        &mut self,
        sess: &mut Session,
        rng: &mut R,
        task: ReadTask,
        reply: Reply,
    ) -> (r: ReadProgress)
        requires
            old(self).wf(),
            old(sess).wf(),
            task.wf(*old(self)),
            reply_fits(*old(self), task.spec_request(), reply),
        ensures
            final(self).wf(),
            final(sess).wf(),
            final(self).line_ends == old(self).line_ends,
            r.wf(*final(self)),
            read_resumes(
                *old(self),
                *old(sess),
                *old(rng),
                task,
                reply,
                *final(self),
                *final(sess),
                *final(rng),
                r,
            ),
    {
        match (task, reply) {
            (ReadTask::Draining, Reply::Written(outcome)) => match self.send.flush(outcome) {
                Ok(drained) => ReadProgress::Pending(
                    if drained {
                        ReadTask::DrainFlush
                    } else {
                        ReadTask::Draining
                    },
                ),
                Err(e) => if e.is_would_block() {
                    let budget: usize = sess.frame_budget;
                    self.settle_and_run(sess, rng, budget)
                } else {
                    ReadProgress::Done(ReadOutcome::Failed(e))
                },
            },
            (ReadTask::DrainFlush, _) => {
                self.send.maybe_shrink(sess.max_buf_size, rng);
                assert(sent_shrunk(*old(self), *sess, old(rng), *self, rng));
                let budget: usize = sess.frame_budget;
                self.settle_and_run(sess, rng, budget)
            },
            (ReadTask::Filling { budget, mark, need }, Reply::Read(outcome)) =>
                match self.read.read_once(outcome) {
                    Err(e) => {
                        if let FillError::WouldBlock = e {
                            if budget < sess.frame_budget {
                                return ReadProgress::Done(ReadOutcome::Heard);
                            }
                        }
                        ReadProgress::Done(ReadOutcome::Failed(fill_error(e)))
                    },
                    Ok(arrived) => if !arrived || self.read.pending_len() < need {
                        ReadProgress::Pending(ReadTask::Filling { budget, mark, need })
                    } else {
                        assert(received(*old(self), bytes_read(outcome), *self));
                        self.run(sess, rng, budget, mark)
                    },
                },
            (ReadTask::Ponging { budget }, Reply::Written(outcome)) => ReadProgress::Pending(
                if self.send.try_flush(outcome) {
                    ReadTask::Ponging { budget }
                } else {
                    ReadTask::PongFlush { budget }
                },
            ),
            (ReadTask::PongFlush { budget }, _) => {
                let budget: usize = budget.saturating_sub(1);
                if budget == 0 {
                    return ReadProgress::Done(ReadOutcome::Exhausted);
                }
                self.settle_and_run(sess, rng, budget)
            },
            (ReadTask::Closing { code, start, len }, Reply::Written(outcome)) =>
                ReadProgress::Pending(
                    if self.send.try_flush(outcome) {
                        ReadTask::Closing { code, start, len }
                    } else {
                        ReadTask::CloseFlush { code, start, len }
                    },
                ),
            (ReadTask::CloseFlush { code, start, len }, _) => ReadProgress::Done(
                ReadOutcome::Close { code, start, len },
            ),
            (task, _) => ReadProgress::Pending(task),
        }
    }
}

} // verus!
