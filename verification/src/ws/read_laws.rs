//! What holds of a read from its beginning to its end, however the stream hands
//! out the bytes.
use vstd::prelude::*;

use crate::ws::error::{CallerError, ConnectionError, Error};
use crate::ws::frame::{parse_header, Header, OP_CLOSE, OP_PONG};
use crate::ws::frame_laws::{law_frame_fits, law_header_need, law_header_stable};
use crate::ws::io::Reply;
use crate::ws::laws::{frames_taken, law_reading_in_pieces, lemma_frame_step_more, with_more};
use crate::ws::proto::{
    close_echo, close_payload, frame_step, frames_lead_to, fresh_frames_lead_to, loop_leads_to,
    read_resumes, received, reply_fits, run_frames, sent_shrunk, settled, spend, Buffers,
    CloseState, LoopState, ReadModel, ReadOutcome, ReadProgress, ReadTask, Session, Stop,
};
use crate::ws::read_buf::{read_once_result, FillError};
use crate::ws::rng::Rng;
use crate::ws::send_buf::write_result;
use crate::ws::websocket::{read_comes_to, Message, ReadStatus, WebSocket};

verus! {

/// A read that has begun.
pub struct Call<R> {
    pub bufs: Buffers,
    pub sess: Session,
    pub rng: R,
    pub at: ReadProgress,
    /// Frames that came in.
    pub taken: nat,
    /// Control frames that were queued in reply, by opcode and payload.
    pub replies: Seq<(u8, Seq<u8>)>,
}

/// What the stream did: the reply to a request, and the bytes that a read gave.
pub struct StreamEvent {
    pub reply: Reply,
    pub bytes: Seq<u8>,
}

/// The frames that came in where the frame loop ran from `m`.
pub open spec fn frames_in(m: ReadModel, s: Session) -> nat {
    let stop = run_frames(m, s.max_payload, s.max_flood_score).1;
    frames_taken(m, s.max_payload, s.max_flood_score) + if stop is Need || stop is Exhausted {
        0nat
    } else {
        1nat
    }
}

/// The replies that are queued where the frame loop stops so: each ping is
/// answered by its payload, if there is room, and the first close frame by its
/// code.
pub open spec fn replies_to(stop: Stop, room: bool, open: bool) -> Seq<(u8, Seq<u8>)> {
    match stop {
        Stop::Ping(payload) => if room {
            seq![(OP_PONG, payload)]
        } else {
            Seq::empty()
        },
        Stop::Close(payload) => if open && close_payload(payload) is Ok {
            seq![(OP_CLOSE, close_echo(payload))]
        } else {
            Seq::empty()
        },
        _ => Seq::empty(),
    }
}

/// There is room for one more reply.
pub open spec fn has_room(b: Buffers, s: Session) -> bool {
    b.send.unsent_bytes().len() < s.max_buf_size
}

impl<R: Rng> Call<R> {
    pub open spec fn wf(self) -> bool {
        self.bufs.wf() && self.sess.wf() && self.at.wf(self.bufs)
    }

    /// The state of reading, with that budget, between frames.
    pub open spec fn model(self, budget: usize) -> ReadModel {
        self.bufs.model(self.sess, budget, 0)
    }

    /// Where the frame loop runs from after an event, if it does.
    pub open spec fn loop_begins(self, event: StreamEvent) -> Option<ReadModel> {
        match (self.at, event.reply) {
            (
                ReadProgress::Pending(ReadTask::Draining),
                Reply::Written(outcome),
            ) => match write_result(outcome) {
                Err(e) => if e.spec_is_would_block() {
                    Some(self.model(self.sess.frame_budget))
                } else {
                    None
                },
                Ok(_) => None,
            },
            (ReadProgress::Pending(ReadTask::DrainFlush), Reply::Flushed(_)) => Some(
                self.model(self.sess.frame_budget),
            ),
            (
                ReadProgress::Pending(ReadTask::Filling { budget, mark, need }),
                Reply::Read(outcome),
            ) => if read_once_result(outcome) == Ok::<bool, FillError>(true)
                && self.bufs.read.pending_bytes().len() + event.bytes.len() >= need {
                Some(
                    ReadModel {
                        pending: self.bufs.read.pending_bytes() + event.bytes,
                        fresh: self.bufs.read.end_pos() + event.bytes.len() - mark,
                        ..self.model(budget)
                    },
                )
            } else {
                None
            },
            (ReadProgress::Pending(ReadTask::PongFlush { budget }), Reply::Flushed(_)) =>
                if budget > 1 {
                    Some(self.model((budget - 1) as usize))
                } else {
                    None
                },
            _ => None,
        }
    }

    /// The frames and replies of the frame loop that ran from `m`, if it ran.
    pub open spec fn counts(self, m: Option<ReadModel>, room: bool, s: Session, next: Self) -> bool {
        match m {
            Some(m) => {
                let stop = run_frames(m, s.max_payload, s.max_flood_score).1;
                &&& next.taken == self.taken + frames_in(m, s)
                &&& next.replies == self.replies + replies_to(
                    stop,
                    room,
                    s.close_state == CloseState::Open,
                )
            },
            None => next.taken == self.taken && next.replies == self.replies,
        }
    }

    /// The call that a read of `b` and `s` begins.
    pub open spec fn begun(self, b: Buffers, s: Session, rng: R) -> bool {
        &&& self.wf()
        &&& if b.send.unsent_bytes().len() > 0 {
            &&& self.at == ReadProgress::Pending(ReadTask::Draining)
            &&& self.bufs == b && self.sess == s && self.rng == rng
            &&& self.taken == 0 && self.replies.len() == 0
        } else {
            let m = b.model(s, s.frame_budget, 0);
            let stop = run_frames(m, s.max_payload, s.max_flood_score).1;
            &&& fresh_frames_lead_to(
                b,
                s,
                rng,
                s.frame_budget,
                self.bufs,
                self.sess,
                self.rng,
                self.at,
            )
            &&& self.taken == frames_in(m, s)
            &&& self.replies == replies_to(stop, has_room(b, s), s.close_state == CloseState::Open)
        }
    }

    /// The reading goes on to `next` with what the stream did.
    pub open spec fn step(self, event: StreamEvent, next: Self) -> bool {
        &&& next.wf()
        &&& self.at matches ReadProgress::Pending(task)
        &&& event.reply matches Reply::Read(Ok(n)) ==> event.bytes.len() == n
        &&& !(event.reply matches Reply::Read(Ok(_))) ==> event.bytes.len() == 0
        &&& exists|b: Buffers|
            {
                &&& #[trigger] holds_input(self.bufs, event.bytes, b)
                &&& !(event.reply is Read) ==> b == self.bufs
                &&& reply_fits(b, task.spec_request(), event.reply)
                &&& read_resumes(
                    b,
                    self.sess,
                    self.rng,
                    task,
                    event.reply,
                    next.bufs,
                    next.sess,
                    next.rng,
                    next.at,
                )
            }
        &&& self.counts(
            self.loop_begins(event),
            has_room(self.bufs, self.sess),
            self.sess,
            next,
        )
    }
}

/// The buffers `b` with those bytes written to the spare region.
pub open spec fn holds_input(b: Buffers, bytes: Seq<u8>, b1: Buffers) -> bool {
    let end = b.read.end_pos();
    &&& b1.send == b.send
    &&& b1.fragment_buf == b.fragment_buf
    &&& b1.line_ends == b.line_ends
    &&& b1.read.start_pos() == b.read.start_pos()
    &&& b1.read.end_pos() == end
    &&& b1.read.data().len() == b.read.data().len()
    &&& b1.read.data().take(end) == b.read.data().take(end)
    &&& end + bytes.len() <= b1.read.data().len()
    &&& b1.read.data().subrange(end, end + bytes.len()) == bytes
}

/// The call comes from `first` to `last` by those events.
pub open spec fn call_runs<R: Rng>(
    first: Call<R>,
    events: Seq<StreamEvent>,
    last: Call<R>,
) -> bool
    decreases events.len(),
{
    if events.len() == 0 {
        first == last
    } else {
        exists|mid: Call<R>|
            call_runs(first, events.drop_last(), mid) && #[trigger] mid.step(events.last(), last)
    }
}

/// All bytes that the stream gave.
pub open spec fn arrived(events: Seq<StreamEvent>) -> Seq<u8>
    decreases events.len(),
{
    if events.len() == 0 {
        Seq::empty()
    } else {
        arrived(events.drop_last()) + events.last().bytes
    }
}

proof fn lemma_holds_input(b: Buffers, bytes: Seq<u8>, b1: Buffers, b2: Buffers)
    requires
        b.wf(),
        holds_input(b, bytes, b1),
        received(b1, bytes.len() as int, b2),
    ensures
        b2.read.pending_bytes() == b.read.pending_bytes() + bytes,
{
    let start = b.read.start_pos();
    let end = b.read.end_pos();
    let all = b1.read.data().subrange(start, end + bytes.len());
    assert(all =~= b1.read.data().take(end).skip(start) + b1.read.data().subrange(
        end,
        end + bytes.len(),
    ));
    assert(b.read.pending_bytes() =~= b.read.data().take(end).skip(start));
}

/// The frame loop runs as it was said to.
proof fn lemma_step_runs<R: Rng>(c: Call<R>, event: StreamEvent, next: Call<R>) -> (rng: R)
    requires
        c.wf(),
        c.step(event, next),
        c.loop_begins(event) is Some,
    ensures
        frames_lead_to(
            c.loop_begins(event)->0,
            c.bufs.send.unsent_bytes(),
            c.sess,
            rng,
            next.bufs,
            next.sess,
            next.rng,
            next.at,
        ),
{
    let m = c.loop_begins(event)->0;
    let task = c.at->Pending_0;
    let b = choose|b: Buffers|
        {
            &&& #[trigger] holds_input(c.bufs, event.bytes, b)
            &&& !(event.reply is Read) ==> b == c.bufs
            &&& reply_fits(b, task.spec_request(), event.reply)
            &&& read_resumes(
                b,
                c.sess,
                c.rng,
                task,
                event.reply,
                next.bufs,
                next.sess,
                next.rng,
                next.at,
            )
        };
    if let ReadTask::Filling { budget, mark, need } = task {
        let n = event.bytes.len() as int;
        let bufs = choose|bufs: Buffers|
            #[trigger] received(b, n, bufs) && loop_leads_to(
                LoopState { bufs, sess: c.sess, rng: c.rng, budget, mark: mark as int },
                next.bufs,
                next.sess,
                next.rng,
                next.at,
            );
        lemma_holds_input(c.bufs, event.bytes, b, bufs);
        let x = LoopState { bufs, sess: c.sess, rng: c.rng, budget, mark: mark as int };
        assert(x.model() == m);
        lemma_loop_runs(x, next)
    } else {
        assert(event.bytes =~= Seq::<u8>::empty());
        assert(received(b, 0, b));
        lemma_holds_input(c.bufs, event.bytes, b, b);
        assert(c.bufs.read.pending_bytes() + event.bytes =~= c.bufs.read.pending_bytes());
        if task is DrainFlush {
            let (bufs, mid) = choose|bufs: Buffers, mid: R|
                #[trigger] sent_shrunk(b, c.sess, &c.rng, bufs, &mid) && fresh_frames_lead_to(
                    bufs,
                    c.sess,
                    mid,
                    c.sess.frame_budget,
                    next.bufs,
                    next.sess,
                    next.rng,
                    next.at,
                );
            lemma_fresh_runs(bufs, c.sess, mid, c.sess.frame_budget, next)
        } else {
            lemma_fresh_runs(b, c.sess, c.rng, m.budget, next)
        }
    }
}

proof fn lemma_loop_runs<R: Rng>(x: LoopState<R>, next: Call<R>) -> (rng: R)
    requires
        loop_leads_to(x, next.bufs, next.sess, next.rng, next.at),
    ensures
        frames_lead_to(
            x.model(),
            x.bufs.send.unsent_bytes(),
            x.sess,
            rng,
            next.bufs,
            next.sess,
            next.rng,
            next.at,
        ),
{
    choose|rng: R|
        frames_lead_to(
            x.model(),
            x.bufs.send.unsent_bytes(),
            x.sess,
            rng,
            next.bufs,
            next.sess,
            next.rng,
            next.at,
        )
}

proof fn lemma_fresh_runs<R: Rng>(
    b: Buffers,
    s: Session,
    rng0: R,
    budget: usize,
    next: Call<R>,
) -> (rng: R)
    requires
        fresh_frames_lead_to(
            b,
            s,
            rng0,
            budget,
            next.bufs,
            next.sess,
            next.rng,
            next.at,
        ),
    ensures
        frames_lead_to(
            b.model(s, budget, 0),
            b.send.unsent_bytes(),
            s,
            rng,
            next.bufs,
            next.sess,
            next.rng,
            next.at,
        ),
{
    let (bufs, mid) = choose|bufs: Buffers, mid: R|
        #[trigger] settled(b, s, &rng0, bufs, &mid) && loop_leads_to(
            LoopState { bufs, sess: s, rng: mid, budget, mark: bufs.read.end_pos() },
            next.bufs,
            next.sess,
            next.rng,
            next.at,
        );
    let x = LoopState { bufs, sess: s, rng: mid, budget, mark: bufs.read.end_pos() };
    assert(x.model() == b.model(s, budget, 0));
    lemma_loop_runs(x, next)
}

proof fn lemma_budget_spent(m: ReadModel, max_payload: usize, max_flood: usize)
    requires
        max_payload <= isize::MAX,
        m.budget >= 1,
    ensures
        ({
            let (m1, stop) = run_frames(m, max_payload, max_flood);
            &&& m1.budget + frames_taken(m, max_payload, max_flood) == m.budget
            &&& m1.budget == 0 <==> stop is Exhausted
        }),
    decreases m.pending.len(),
{
    let (m1, stop) = frame_step(m, max_payload, max_flood);
    let m2 = spend(m1);
    if stop is None && m2.budget > 0 {
        law_frame_fits(m.pending, max_payload);
        lemma_budget_spent(m2, max_payload, max_flood);
    }
}

/// A frame that cannot be accepted is no silence.
proof fn lemma_frames_fail_loudly(m: ReadModel, max_payload: usize, max_flood: usize)
    requires
        max_payload <= isize::MAX,
    ensures
        run_frames(m, max_payload, max_flood).1 matches Stop::Fail(e) ==> !e.spec_is_would_block(),
    decreases m.pending.len(),
{
    let (m1, stop) = frame_step(m, max_payload, max_flood);
    let m2 = spend(m1);
    if stop is None && m2.budget > 0 {
        law_frame_fits(m.pending, max_payload);
        lemma_frames_fail_loudly(m2, max_payload, max_flood);
    }
}

/// Each frame that came in is off the budget, and silence is told from silence
/// after frames.
spec fn on_budget<R: Rng>(c: Call<R>) -> bool {
    match c.at {
        ReadProgress::Pending(task) => match task {
            ReadTask::Draining | ReadTask::DrainFlush => c.taken == 0,
            ReadTask::Filling { budget, mark, need } => budget >= 1 && budget + c.taken
                == c.sess.frame_budget,
            ReadTask::Ponging { budget } | ReadTask::PongFlush { budget } => budget >= 1 && budget
                + c.taken == c.sess.frame_budget + 1,
            _ => true,
        },
        ReadProgress::Done(outcome) => match outcome {
            ReadOutcome::Failed(e) => e.spec_is_would_block() ==> c.taken == 0,
            ReadOutcome::Heard => c.taken > 0,
            _ => true,
        },
    }
}

proof fn lemma_on_budget_after_loop<R: Rng>(
    m: ReadModel,
    unsent: Seq<u8>,
    s: Session,
    rng: R,
    before: nat,
    next: Call<R>,
)
    requires
        s.wf(),
        m.budget >= 1,
        m.budget + before == s.frame_budget,
        frames_lead_to(m, unsent, s, rng, next.bufs, next.sess, next.rng, next.at),
        next.taken == before + frames_in(m, s),
    ensures
        on_budget(next),
{
    lemma_budget_spent(m, s.max_payload, s.max_flood_score);
    lemma_frames_fail_loudly(m, s.max_payload, s.max_flood_score);
}

proof fn lemma_on_budget<R: Rng>(first: Call<R>, events: Seq<StreamEvent>, last: Call<R>)
    requires
        first.wf(),
        on_budget(first),
        call_runs(first, events, last),
    ensures
        last.wf(),
        on_budget(last),
    decreases events.len(),
{
    if events.len() > 0 {
        let event = events.last();
        let mid = choose|mid: Call<R>|
            call_runs(first, events.drop_last(), mid) && #[trigger] mid.step(event, last);
        lemma_on_budget(first, events.drop_last(), mid);
        if let Some(m) = mid.loop_begins(event) {
            let rng = lemma_step_runs(mid, event, last);
            lemma_on_budget_after_loop(
                m,
                mid.bufs.send.unsent_bytes(),
                mid.sess,
                rng,
                mid.taken,
                last,
            );
        }
    }
}

/// At last the stream had nothing more to read.
pub open spec fn went_silent(events: Seq<StreamEvent>) -> bool {
    &&& events.len() > 0
    &&& events.last().reply matches Reply::Read(Err(e))
    &&& e.spec_is_would_block()
}

/// Any frame that is received clears the ping deadline: a read that took in
/// frames does not run into it, and if it does not fail at all, the connection
/// was heard of at the time of the read.  Silence fails the connection exactly
/// when the deadline has passed.
pub proof fn law_ping_deadline<R: Rng>(
    b: Buffers,
    s: Session,
    rng: R,
    first: Call<R>,
    events: Seq<StreamEvent>,
    last: Call<R>,
    outcome: ReadOutcome,
    now: u64,
    r: Result<ReadStatus<'_>, Error>,
    s1: Session,
)
    requires
        s.wf(),
        first.begun(b, s, rng),
        call_runs(first, events, last),
        last.at == ReadProgress::Done(outcome),
        read_comes_to(last.bufs, last.sess, outcome, now, r, s1),
    ensures
        last.taken > 0 ==> {
            &&& !(outcome matches ReadOutcome::Failed(e) && e.spec_is_would_block())
            &&& r is Ok ==> s1.ping_deadline is None && s1.last_activity == Some(now)
        },
        outcome is Heard ==> last.taken > 0 && r == Ok::<ReadStatus, Error>(ReadStatus::Idle),
        went_silent(events) && last.taken > 0 ==> outcome is Heard,
        outcome matches ReadOutcome::Failed(e) && e.spec_is_would_block() ==> {
            let late = last.sess.ping_deadline is Some && now >= last.sess.ping_deadline->0;
            &&& late ==> r == Err::<ReadStatus, Error>(
                Error::Reconnect(ConnectionError::PingTimeout),
            )
            &&& !late ==> r == Ok::<ReadStatus, Error>(ReadStatus::Idle) && s1 == last.sess
        },
{
    lemma_begun(b, s, rng, first);
    lemma_on_budget(first, events, last);
    if went_silent(events) {
        let mid = choose|mid: Call<R>|
            call_runs(first, events.drop_last(), mid) && #[trigger] mid.step(events.last(), last);
        lemma_on_budget(first, events.drop_last(), mid);
    }
}

proof fn lemma_begun<R: Rng>(b: Buffers, s: Session, rng: R, first: Call<R>)
    requires
        s.wf(),
        first.begun(b, s, rng),
    ensures
        on_budget(first),
{
    if b.send.unsent_bytes().len() == 0 {
        let rng1 = lemma_fresh_runs(b, s, rng, s.frame_budget, first);
        lemma_on_budget_after_loop(
            b.model(s, s.frame_budget, 0),
            b.send.unsent_bytes(),
            s,
            rng1,
            0,
            first,
        );
    }
}

/// Two states of reading that differ in nothing but the flood score and the
/// count of fresh bytes.
pub open spec fn alike(m: ReadModel, k: ReadModel) -> bool {
    m == (ReadModel { flood_score: m.flood_score, fresh: m.fresh, ..k })
}

proof fn lemma_alike_run_alike(m: ReadModel, k: ReadModel, max_payload: usize)
    requires
        max_payload <= isize::MAX,
        alike(m, k),
    ensures
        ({
            let (m1, stop) = run_frames(m, max_payload, usize::MAX);
            let (k1, end) = run_frames(k, max_payload, usize::MAX);
            alike(m1, k1) && stop == end
        }),
    decreases m.pending.len(),
{
    let (m1, stop) = frame_step(m, max_payload, usize::MAX);
    let (k1, _) = frame_step(k, max_payload, usize::MAX);
    if stop is None && spend(m1).budget > 0 {
        law_frame_fits(m.pending, max_payload);
        lemma_alike_run_alike(spend(m1), spend(k1), max_payload);
    }
}

proof fn lemma_ping_taken(m: ReadModel, max_payload: usize, max_flood: usize)
    requires
        max_payload <= isize::MAX,
    ensures
        ({
            let (m1, stop) = run_frames(m, max_payload, max_flood);
            stop is Ping ==> m1.pending.len() < m.pending.len()
        }),
    decreases m.pending.len(),
{
    let (m1, stop) = frame_step(m, max_payload, max_flood);
    if parse_header(m.pending, max_payload) is Frame {
        law_frame_fits(m.pending, max_payload);
    }
    if stop is None && spend(m1).budget > 0 {
        lemma_ping_taken(spend(m1), max_payload, max_flood);
    }
}

/// How many whole frames the bytes begin with.
pub open spec fn frame_count(bytes: Seq<u8>, max_payload: usize) -> nat
    decreases bytes.len(),
    when max_payload <= isize::MAX
    via frame_count_decreases
{
    match parse_header(bytes, max_payload) {
        Header::Frame { fin, opcode, header_len, payload_len } => 1 + frame_count(
            bytes.skip(header_len + payload_len),
            max_payload,
        ),
        _ => 0,
    }
}

#[via_fn]
proof fn frame_count_decreases(bytes: Seq<u8>, max_payload: usize) {
    if parse_header(bytes, max_payload) is Frame {
        law_frame_fits(bytes, max_payload);
    }
}

/// The flood threshold cannot be passed by the frames that are there.
pub open spec fn flood_out_of_reach(m: ReadModel, max_payload: usize, max_flood: usize) -> bool {
    max_flood == usize::MAX || m.flood_score + frame_count(m.pending, max_payload) <= max_flood
}

/// Where the threshold is out of reach, with `more` to come, it does not matter
/// and stays so.
proof fn lemma_flood_out_of_reach(
    m: ReadModel,
    more: Seq<u8>,
    max_payload: usize,
    max_flood: usize,
)
    requires
        max_payload <= isize::MAX,
        flood_out_of_reach(with_more(m, more), max_payload, max_flood),
    ensures
        run_frames(m, max_payload, max_flood) == run_frames(m, max_payload, usize::MAX),
        flood_out_of_reach(
            with_more(run_frames(m, max_payload, max_flood).0, more),
            max_payload,
            max_flood,
        ),
    decreases m.pending.len(),
{
    if parse_header(m.pending, max_payload) is Frame {
        law_frame_fits(m.pending, max_payload);
        lemma_frame_step_more(m, more, max_payload, max_flood);
        law_header_stable(m.pending, more, max_payload);
        let (m1, stop) = frame_step(m, max_payload, max_flood);
        let h = parse_header(m.pending, max_payload);
        let size = h->header_len + h->payload_len;
        assert((m.pending + more).skip(size) =~= m.pending.skip(size) + more);
        assert(frame_count(m.pending + more, max_payload) == 1 + frame_count(
            m1.pending + more,
            max_payload,
        ));
        assert(max_flood < usize::MAX ==> m1.flood_score <= m.flood_score + 1);
        assert(frame_step(m, max_payload, max_flood) == frame_step(m, max_payload, usize::MAX));
        assert(flood_out_of_reach(with_more(m1, more), max_payload, max_flood));
        if stop is None && spend(m1).budget > 0 {
            lemma_flood_out_of_reach(spend(m1), more, max_payload, max_flood);
        }
    }
}

/// A read where all bytes are there at once and every reply goes out at once:
/// the replies, and what it stops at.
#[verifier::opaque]
pub open spec fn whole_read(m: ReadModel, max_payload: usize, max_flood: usize, open: bool) -> (
    Seq<(u8, Seq<u8>)>,
    Stop,
)
    decreases m.pending.len(),
    when max_payload <= isize::MAX
    via whole_read_decreases
{
    let (m1, stop) = run_frames(m, max_payload, max_flood);
    if !(stop is Ping) {
        (replies_to(stop, true, open), stop)
    } else if m1.budget <= 1 {
        (replies_to(stop, true, open), Stop::Exhausted)
    } else {
        let (replies, end) = whole_read(
            ReadModel { fresh: 0, ..spend(m1) },
            max_payload,
            max_flood,
            open,
        );
        (replies_to(stop, true, open) + replies, end)
    }
}

#[via_fn]
proof fn whole_read_decreases(m: ReadModel, max_payload: usize, max_flood: usize, open: bool) {
    lemma_ping_taken(m, max_payload, max_flood);
}

proof fn lemma_alike_whole(m: ReadModel, k: ReadModel, max_payload: usize, open: bool)
    requires
        max_payload <= isize::MAX,
        alike(m, k),
    ensures
        whole_read(m, max_payload, usize::MAX, open) == whole_read(
            k,
            max_payload,
            usize::MAX,
            open,
        ),
    decreases m.pending.len(),
{
    reveal_with_fuel(whole_read, 2);
    lemma_alike_run_alike(m, k, max_payload);
    lemma_ping_taken(m, max_payload, usize::MAX);
    let (m1, stop) = run_frames(m, max_payload, usize::MAX);
    let (k1, _) = run_frames(k, max_payload, usize::MAX);
    if stop is Ping && m1.budget > 1 {
        lemma_alike_whole(
            ReadModel { fresh: 0, ..spend(m1) },
            ReadModel { fresh: 0, ..spend(k1) },
            max_payload,
            open,
        );
    }
}

proof fn lemma_whole_read_unflooded(
    m: ReadModel,
    max_payload: usize,
    max_flood: usize,
    open: bool,
)
    requires
        max_payload <= isize::MAX,
        flood_out_of_reach(m, max_payload, max_flood),
    ensures
        whole_read(m, max_payload, max_flood, open) == whole_read(
            m,
            max_payload,
            usize::MAX,
            open,
        ),
    decreases m.pending.len(),
{
    reveal_with_fuel(whole_read, 2);
    let none = Seq::<u8>::empty();
    assert(with_more(m, none).pending =~= m.pending);
    lemma_flood_out_of_reach(m, none, max_payload, max_flood);
    lemma_ping_taken(m, max_payload, max_flood);
    let (m1, stop) = run_frames(m, max_payload, max_flood);
    assert(with_more(m1, none).pending =~= m1.pending);
    if stop is Ping && m1.budget > 1 {
        lemma_whole_read_unflooded(
            ReadModel { fresh: 0, ..spend(m1) },
            max_payload,
            max_flood,
            open,
        );
    }
}

/// What is left of a read, from where it stands, with `more` still to arrive.
spec fn left_to_read<R: Rng>(c: Call<R>, budget: usize, more: Seq<u8>) -> (
    Seq<(u8, Seq<u8>)>,
    Stop,
) {
    whole_read(
        with_more(c.model(budget), more),
        c.sess.max_payload,
        usize::MAX,
        c.sess.close_state == CloseState::Open,
    )
}

/// A read that ended with `outcome` stopped at `stop`.
pub open spec fn ended_at(b: Buffers, outcome: ReadOutcome, stop: Stop) -> bool {
    match outcome {
        ReadOutcome::Message { opcode, fragmented, start, len } => stop == Stop::Message(
            opcode,
            b.message_bytes(fragmented, start, len),
        ),
        ReadOutcome::Close { code, start, len } => {
            &&& stop matches Stop::Close(payload)
            &&& close_payload(payload) == Ok::<(Option<u16>, Seq<u8>), ConnectionError>(
                (code, b.message_bytes(false, start, len)),
            )
        },
        ReadOutcome::Exhausted => stop is Exhausted,
        ReadOutcome::Heard => false,
        ReadOutcome::Failed(e) => match stop {
            Stop::Fail(c) => e == c,
            Stop::Close(payload) => close_payload(payload) == Err::<
                (Option<u16>, Seq<u8>),
                ConnectionError,
            >(e),
            // The stream ended too early.
            Stop::Need(_) => e == ConnectionError::Closed,
            _ => false,
        },
    }
}

/// From where it stands, with `more` still to arrive, the call comes to those
/// replies and that stop.
spec fn heads_for<R: Rng>(
    c: Call<R>,
    more: Seq<u8>,
    replies: Seq<(u8, Seq<u8>)>,
    stop: Stop,
) -> bool {
    match c.at {
        ReadProgress::Pending(task) => match task {
            ReadTask::Draining => {
                let left = left_to_read(c, c.sess.frame_budget, more);
                replies == c.replies + left.0 && stop == left.1
            },
            ReadTask::DrainFlush => {
                let left = left_to_read(c, c.sess.frame_budget, more);
                &&& replies == c.replies + left.0 && stop == left.1
                &&& c.bufs.send.unsent_bytes().len() == 0
            },
            ReadTask::Filling { budget, mark, need } => {
                let left = left_to_read(c, budget, more);
                &&& replies == c.replies + left.0 && stop == left.1
                &&& parse_header(c.bufs.read.pending_bytes(), c.sess.max_payload) == Header::Need(
                    need,
                )
                &&& c.bufs.send.unsent_bytes().len() == 0
            },
            ReadTask::Ponging { budget } | ReadTask::PongFlush { budget } => {
                &&& if budget <= 1 {
                    replies == c.replies && stop is Exhausted
                } else {
                    let left = left_to_read(c, (budget - 1) as usize, more);
                    replies == c.replies + left.0 && stop == left.1
                }
                &&& task is PongFlush ==> c.bufs.send.unsent_bytes().len() == 0
            },
            ReadTask::Closing { code, start, len } => replies == c.replies && ended_at(
                c.bufs,
                ReadOutcome::Close { code, start, len },
                stop,
            ),
            ReadTask::CloseFlush { code, start, len } => replies == c.replies && ended_at(
                c.bufs,
                ReadOutcome::Close { code, start, len },
                stop,
            ),
        },
        ReadProgress::Done(outcome) => replies == c.replies && ended_at(c.bufs, outcome, stop),
    }
}

/// The flood threshold is out of the call's reach, with `more` still to arrive.
spec fn calm<R: Rng>(c: Call<R>, more: Seq<u8>) -> bool {
    flood_out_of_reach(
        with_more(c.model(0), more),
        c.sess.max_payload,
        c.sess.max_flood_score,
    )
}

/// The stream does not fail: writes take something, reads give something, and
/// what is not there yet is waited for.
pub open spec fn smooth(reply: Reply) -> bool {
    match reply {
        Reply::Read(outcome) => outcome is Ok || read_once_result(outcome) is Ok,
        Reply::Written(outcome) => write_result(outcome) is Ok,
        Reply::Flushed(_) => true,
    }
}

proof fn lemma_needs_more(m: ReadModel, max_payload: usize, max_flood: usize)
    requires
        max_payload <= isize::MAX,
    ensures
        ({
            let (m1, stop) = run_frames(m, max_payload, max_flood);
            stop matches Stop::Need(n) ==> parse_header(m1.pending, max_payload) == Header::Need(n)
        }),
    decreases m.pending.len(),
{
    let (m1, stop) = frame_step(m, max_payload, max_flood);
    if stop is None && spend(m1).budget > 0 {
        law_frame_fits(m.pending, max_payload);
        lemma_needs_more(spend(m1), max_payload, max_flood);
    }
}

/// The frame loop heads for where a read of all bytes ends.
proof fn lemma_loop_heads_on<R: Rng>(
    m: ReadModel,
    s: Session,
    rng: R,
    replies: Seq<(u8, Seq<u8>)>,
    next: Call<R>,
    more: Seq<u8>,
)
    requires
        s.wf(),
        flood_out_of_reach(with_more(m, more), s.max_payload, s.max_flood_score),
        next.wf(),
        m.budget >= 1,
        frames_lead_to(m, Seq::empty(), s, rng, next.bufs, next.sess, next.rng, next.at),
        next.replies == replies + replies_to(
            run_frames(m, s.max_payload, s.max_flood_score).1,
            true,
            s.close_state == CloseState::Open,
        ),
    ensures
        ({
            let whole = whole_read(
                with_more(m, more),
                s.max_payload,
                usize::MAX,
                s.close_state == CloseState::Open,
            );
            heads_for(next, more, replies + whole.0, whole.1)
        }),
        calm(next, more),
{
    lemma_flood_out_of_reach(m, more, s.max_payload, s.max_flood_score);
    reveal_with_fuel(whole_read, 2);
    let open = s.close_state == CloseState::Open;
    let (m1, stop) = run_frames(m, s.max_payload, usize::MAX);
    law_reading_in_pieces(m, more, s.max_payload, usize::MAX);
    lemma_budget_spent(m, s.max_payload, usize::MAX);
    lemma_needs_more(m, s.max_payload, usize::MAX);
    let all = with_more(m, more);
    let whole = whole_read(all, s.max_payload, usize::MAX, open);
    assert(replies + Seq::<(u8, Seq<u8>)>::empty() =~= replies);
    match stop {
        Stop::Need(_) => {
            let k = with_more(next.model(m1.budget), more);
            lemma_alike_whole(with_more(m1, more), k, s.max_payload, open);
            assert(whole == whole_read(with_more(m1, more), s.max_payload, usize::MAX, open));
        },
        Stop::Ping(payload) => {
            let answer = replies_to(stop, true, open);
            if m1.budget > 1 {
                let k = with_more(next.model((m1.budget - 1) as usize), more);
                let after = ReadModel { fresh: 0, ..spend(with_more(m1, more)) };
                lemma_alike_whole(after, k, s.max_payload, open);
                let rest = whole_read(after, s.max_payload, usize::MAX, open);
                assert(whole.0 == answer + rest.0);
                assert(replies + answer + rest.0 =~= replies + (answer + rest.0));
            }
        },
        _ => {},
    }
}

/// A step in which frames are processed keeps the call heading for where it was
/// heading.
proof fn lemma_frames_head_on<R: Rng>(
    c: Call<R>,
    event: StreamEvent,
    next: Call<R>,
    more: Seq<u8>,
    replies: Seq<(u8, Seq<u8>)>,
    stop: Stop,
)
    requires
        c.wf(),
        calm(c, event.bytes + more),
        on_budget(c),
        c.step(event, next),
        smooth(event.reply),
        event.reply == Reply::Read(Ok(0)) ==> more.len() == 0,
        heads_for(c, event.bytes + more, replies, stop),
        c.loop_begins(event) is Some,
    ensures
        heads_for(next, more, replies, stop),
        calm(next, more),
{
    let m = c.loop_begins(event)->0;
    let open = c.sess.close_state == CloseState::Open;
    let rng = lemma_step_runs(c, event, next);
    assert(c.bufs.send.unsent_bytes() =~= Seq::<u8>::empty());
    let k = with_more(c.model(m.budget), event.bytes + more);
    assert(with_more(m, more).pending =~= k.pending);
    lemma_loop_heads_on(m, c.sess, rng, c.replies, next, more);
    lemma_alike_whole(with_more(m, more), k, c.sess.max_payload, open);
}

/// So does one that waits for more bytes, or for the end of the stream.
proof fn lemma_filling_heads_on<R: Rng>(
    c: Call<R>,
    event: StreamEvent,
    next: Call<R>,
    more: Seq<u8>,
    replies: Seq<(u8, Seq<u8>)>,
    stop: Stop,
)
    requires
        c.wf(),
        calm(c, event.bytes + more),
        on_budget(c),
        c.step(event, next),
        smooth(event.reply),
        event.reply == Reply::Read(Ok(0)) ==> more.len() == 0,
        heads_for(c, event.bytes + more, replies, stop),
        c.loop_begins(event) is None,
        c.at matches ReadProgress::Pending(task) && task is Filling,
    ensures
        heads_for(next, more, replies, stop),
        calm(next, more),
{
    let task = c.at->Pending_0;
    let max = c.sess.max_payload;
    let b = choose|b: Buffers|
        {
            &&& #[trigger] holds_input(c.bufs, event.bytes, b)
            &&& !(event.reply is Read) ==> b == c.bufs
            &&& reply_fits(b, task.spec_request(), event.reply)
            &&& read_resumes(
                b,
                c.sess,
                c.rng,
                task,
                event.reply,
                next.bufs,
                next.sess,
                next.rng,
                next.at,
            )
        };
    if let ReadTask::Filling { budget, mark, need } = task {
        lemma_holds_input(c.bufs, event.bytes, b, next.bufs);
        let k = with_more(c.model(budget), event.bytes + more);
        assert(with_more(next.model(budget), more).pending =~= k.pending);
        law_header_need(c.bufs.read.pending_bytes(), event.bytes, max);
        if next.at is Done {
            assert(k.pending =~= c.bufs.read.pending_bytes());
            assert(frame_step(k, max, usize::MAX).1 == Some(Stop::Need(need)));
            reveal_with_fuel(whole_read, 2);
            assert(c.replies + Seq::<(u8, Seq<u8>)>::empty() =~= c.replies);
        }
    }
}

/// So does one that only writes.
proof fn lemma_writing_heads_on<R: Rng>(
    c: Call<R>,
    event: StreamEvent,
    next: Call<R>,
    more: Seq<u8>,
    replies: Seq<(u8, Seq<u8>)>,
    stop: Stop,
)
    requires
        c.wf(),
        calm(c, event.bytes + more),
        on_budget(c),
        c.step(event, next),
        smooth(event.reply),
        event.reply == Reply::Read(Ok(0)) ==> more.len() == 0,
        heads_for(c, event.bytes + more, replies, stop),
        c.loop_begins(event) is None,
        c.at matches ReadProgress::Pending(task) && !(task is Filling),
    ensures
        heads_for(next, more, replies, stop),
        calm(next, more),
{
    let task = c.at->Pending_0;
    let b = choose|b: Buffers|
        {
            &&& #[trigger] holds_input(c.bufs, event.bytes, b)
            &&& !(event.reply is Read) ==> b == c.bufs
            &&& reply_fits(b, task.spec_request(), event.reply)
            &&& read_resumes(
                b,
                c.sess,
                c.rng,
                task,
                event.reply,
                next.bufs,
                next.sess,
                next.rng,
                next.at,
            )
        };
    assert(event.bytes + more =~= more);
    assert(next.bufs.read == c.bufs.read && next.bufs.fragment_buf == c.bufs.fragment_buf);
    assert(next.sess == c.sess);
}

proof fn lemma_step_heads_on<R: Rng>(
    c: Call<R>,
    event: StreamEvent,
    next: Call<R>,
    more: Seq<u8>,
    replies: Seq<(u8, Seq<u8>)>,
    stop: Stop,
)
    requires
        c.wf(),
        calm(c, event.bytes + more),
        on_budget(c),
        c.step(event, next),
        smooth(event.reply),
        event.reply == Reply::Read(Ok(0)) ==> more.len() == 0,
        heads_for(c, event.bytes + more, replies, stop),
    ensures
        heads_for(next, more, replies, stop),
        calm(next, more),
{
    if c.loop_begins(event) is Some {
        lemma_frames_head_on(c, event, next, more, replies, stop);
    } else if c.at->Pending_0 is Filling {
        lemma_filling_heads_on(c, event, next, more, replies, stop);
    } else {
        lemma_writing_heads_on(c, event, next, more, replies, stop);
    }
}

/// The stream holds `all`: it has given a part of it, in order, and it ends
/// when all is given.
pub open spec fn streams(all: Seq<u8>, events: Seq<StreamEvent>) -> bool
    decreases events.len(),
{
    events.len() > 0 ==> {
        let event = events.last();
        &&& streams(all, events.drop_last())
        &&& smooth(event.reply)
        &&& arrived(events).is_prefix_of(all)
        &&& event.reply == Reply::Read(Ok(0)) ==> arrived(events) == all
    }
}

proof fn lemma_still_to_come(all: Seq<u8>, before: Seq<u8>, bytes: Seq<u8>)
    requires
        (before + bytes).is_prefix_of(all),
    ensures
        all.skip(before.len() as int) == bytes + all.skip((before + bytes).len() as int),
        before + bytes == all ==> all.skip((before + bytes).len() as int).len() == 0,
{
    let given = before + bytes;
    let more = all.skip(given.len() as int);
    assert(all =~= given + more);
    assert(all.skip(before.len() as int) =~= bytes + more);
}

#[verifier::rlimit(40)]
proof fn lemma_call_heads_on<R: Rng>(
    first: Call<R>,
    events: Seq<StreamEvent>,
    last: Call<R>,
    all: Seq<u8>,
    replies: Seq<(u8, Seq<u8>)>,
    stop: Stop,
)
    requires
        first.wf(),
        calm(first, all),
        on_budget(first),
        call_runs(first, events, last),
        streams(all, events),
        heads_for(first, all, replies, stop),
    ensures
        arrived(events).len() <= all.len(),
        heads_for(last, all.skip(arrived(events).len() as int), replies, stop),
        calm(last, all.skip(arrived(events).len() as int)),
    decreases events.len(),
{
    if events.len() == 0 {
        assert(all.skip(0) =~= all);
    } else {
        let event = events.last();
        let before = events.drop_last();
        let mid = choose|mid: Call<R>|
            call_runs(first, before, mid) && #[trigger] mid.step(event, last);
        lemma_call_heads_on(first, before, mid, all, replies, stop);
        lemma_on_budget(first, before, mid);
        let more = all.skip(arrived(events).len() as int);
        lemma_still_to_come(all, arrived(before), event.bytes);
        lemma_step_heads_on(mid, event, last, more, replies, stop);
    }
}

/// A read of `b` and `s` over a stream that holds `all` ends as a read of all
/// bytes at once: it stops at the same message, close frame or error, with the
/// same replies.
pub proof fn law_read_of_a_stream<R: Rng>(
    b: Buffers,
    s: Session,
    rng: R,
    first: Call<R>,
    events: Seq<StreamEvent>,
    last: Call<R>,
    outcome: ReadOutcome,
    all: Seq<u8>,
)
    requires
        s.wf(),
        flood_out_of_reach(
            with_more(b.model(s, s.frame_budget, 0), all),
            s.max_payload,
            s.max_flood_score,
        ),
        first.begun(b, s, rng),
        call_runs(first, events, last),
        streams(all, events),
        last.at == ReadProgress::Done(outcome),
    ensures
        ({
            let (replies, stop) = whole_read(
                with_more(b.model(s, s.frame_budget, 0), all),
                s.max_payload,
                s.max_flood_score,
                s.close_state == CloseState::Open,
            );
            last.replies == replies && ended_at(last.bufs, outcome, stop)
        }),
{
    let open = s.close_state == CloseState::Open;
    let m = b.model(s, s.frame_budget, 0);
    let none = Seq::<(u8, Seq<u8>)>::empty();
    let (replies, stop) = whole_read(with_more(m, all), s.max_payload, usize::MAX, open);
    lemma_whole_read_unflooded(with_more(m, all), s.max_payload, s.max_flood_score, open);
    assert(none + replies =~= replies);
    lemma_begun(b, s, rng, first);
    if b.send.unsent_bytes().len() == 0 {
        let rng1 = lemma_fresh_runs(b, s, rng, s.frame_budget, first);
        assert(b.send.unsent_bytes() =~= Seq::<u8>::empty());
        assert(none + first.replies =~= first.replies);
        lemma_loop_heads_on(m, s, rng1, none, first, all);
    } else {
        assert(first.replies =~= none);
    }
    lemma_call_heads_on(first, events, last, all, replies, stop);
}

/// Two reads ended alike: with the same message, close frame, pause or error.
pub open spec fn same_outcome(b: Buffers, x: ReadOutcome, c: Buffers, y: ReadOutcome) -> bool {
    match (x, y) {
        (
            ReadOutcome::Message { opcode, fragmented, start, len },
            ReadOutcome::Message { opcode: op, fragmented: f, start: p, len: n },
        ) => opcode == op && b.message_bytes(fragmented, start, len) == c.message_bytes(f, p, n),
        (
            ReadOutcome::Close { code, start, len },
            ReadOutcome::Close { code: status, start: p, len: n },
        ) => code == status && b.message_bytes(false, start, len) == c.message_bytes(false, p, n),
        (ReadOutcome::Exhausted, ReadOutcome::Exhausted) => true,
        (ReadOutcome::Failed(e), ReadOutcome::Failed(d)) => e == d,
        _ => false,
    }
}

/// What is read does not depend on the sizes of the reads: two reads that begin
/// alike, over streams that hold the same bytes, end with the same message or
/// error, and queue the same replies.  (Floods are told by the sizes of reads,
/// so this is where the frames are too few to pass the threshold.)
pub proof fn law_read_sizes_do_not_matter<R: Rng>(
    b: Buffers,
    s: Session,
    rng: R,
    first: Call<R>,
    events: Seq<StreamEvent>,
    last: Call<R>,
    outcome: ReadOutcome,
    rng2: R,
    first2: Call<R>,
    events2: Seq<StreamEvent>,
    last2: Call<R>,
    outcome2: ReadOutcome,
    all: Seq<u8>,
)
    requires
        s.wf(),
        flood_out_of_reach(
            with_more(b.model(s, s.frame_budget, 0), all),
            s.max_payload,
            s.max_flood_score,
        ),
        first.begun(b, s, rng),
        call_runs(first, events, last),
        streams(all, events),
        last.at == ReadProgress::Done(outcome),
        first2.begun(b, s, rng2),
        call_runs(first2, events2, last2),
        streams(all, events2),
        last2.at == ReadProgress::Done(outcome2),
    ensures
        same_outcome(last.bufs, outcome, last2.bufs, outcome2),
        last.replies == last2.replies,
{
    law_read_of_a_stream(b, s, rng, first, events, last, outcome, all);
    law_read_of_a_stream(b, s, rng2, first2, events2, last2, outcome2, all);
}

/// A close frame that was accepted leaves the connection closed.
spec fn closed_by_frame<R: Rng>(c: Call<R>) -> bool {
    c.at is Pending && (c.at->Pending_0 is Closing || c.at->Pending_0 is CloseFlush) || c.at is Done
        && c.at->Done_0 is Close ==> c.sess.close_state == CloseState::Closed
}

proof fn lemma_closed_by_frame<R: Rng>(first: Call<R>, events: Seq<StreamEvent>, last: Call<R>)
    requires
        first.wf(),
        closed_by_frame(first),
        call_runs(first, events, last),
    ensures
        last.wf(),
        closed_by_frame(last),
    decreases events.len(),
{
    if events.len() > 0 {
        let event = events.last();
        let mid = choose|mid: Call<R>|
            call_runs(first, events.drop_last(), mid) && #[trigger] mid.step(event, last);
        lemma_closed_by_frame(first, events.drop_last(), mid);
        if mid.loop_begins(event) is Some {
            let rng = lemma_step_runs(mid, event, last);
        }
    }
}

/// After a read that gave a close frame or failed, the connection is closed:
/// the next read is refused, and nothing is read, written or changed.
pub proof fn law_nothing_is_read_after_close<S, R: Rng>(
    b: Buffers,
    s: Session,
    rng: R,
    first: Call<R>,
    events: Seq<StreamEvent>,
    last: Call<R>,
    outcome: ReadOutcome,
    now: u64,
    r: Result<ReadStatus<'_>, Error>,
    ws: WebSocket<S, R>,
    r2: Result<ReadProgress, Error>,
    ws2: WebSocket<S, R>,
)
    requires
        s.wf(),
        first.begun(b, s, rng),
        call_runs(first, events, last),
        last.at == ReadProgress::Done(outcome),
        read_comes_to(last.bufs, last.sess, outcome, now, r, ws.sess),
        r matches Ok(status) ==> status matches ReadStatus::Message(Message::Close(_, _)),
        ws.read_starts(r2, ws2),
    ensures
        r2 == Err::<ReadProgress, Error>(Error::Fatal(CallerError::Closing)),
        ws2 == ws,
{
    if b.send.unsent_bytes().len() == 0 {
        let rng1 = lemma_fresh_runs(b, s, rng, s.frame_budget, first);
    }
    lemma_closed_by_frame(first, events, last);
}

} // verus!
