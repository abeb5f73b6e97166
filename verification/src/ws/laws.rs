//! What holds of reading and sending as a whole.
use vstd::prelude::*;
use vstd::utf8::{
    encode_utf8, encode_utf8_decode_utf8, encode_utf8_valid_utf8, is_ascii_chars_encode_utf8,
};

use crate::bytes::concat;
use crate::ws::error::{CallerError, ConnectionError, Error};
use crate::ws::frame::{
    parse_header, server_frame, Header, OP_BINARY, OP_CONTINUATION, OP_TEXT,
};
use crate::ws::frame_laws::{law_frame_fits, law_header_stable, law_server_frame_is_read_back};
use crate::ws::handshake::{
    any_field_has, blank_line_at, first_field, header_block_ends, header_line, header_lines,
    header_ok, header_search, header_window, lemma_header_search, lines, newlines, offers,
    response_result, status_ok,
};
use crate::ws::io::IoError;
use crate::ws::proto::{
    flood_after_frame, frame_step, frames_lead_to, run_frames, spend, Buffers, CloseState,
    ReadModel, ReadOutcome, ReadProgress, Session, Stop,
};
use crate::ws::rng::Rng;
use crate::ws::send_buf::write_result;
use crate::ws::websocket::{
    read_comes_to, send_begins, Message, ReadStatus, SendKind, SendProgress,
};

verus! {

/// `m` with more bytes received.
pub open spec fn with_more(m: ReadModel, more: Seq<u8>) -> ReadModel {
    ReadModel { pending: m.pending + more, ..m }
}

pub proof fn lemma_frame_step_more(m: ReadModel, more: Seq<u8>, max_payload: usize, max_flood: usize)
    requires
        max_payload <= isize::MAX,
        !(parse_header(m.pending, max_payload) is Need),
    ensures
        ({
            let (m1, stop) = frame_step(m, max_payload, max_flood);
            frame_step(with_more(m, more), max_payload, max_flood) == (with_more(m1, more), stop)
        }),
{
    law_header_stable(m.pending, more, max_payload);
    if let Header::Frame { fin, opcode, header_len, payload_len } = parse_header(
        m.pending,
        max_payload,
    ) {
        law_frame_fits(m.pending, max_payload);
        let size = header_len + payload_len;
        assert((m.pending + more).skip(size) =~= m.pending.skip(size) + more);
        assert((m.pending + more).subrange(header_len as int, size) =~= m.pending.subrange(
            header_len as int,
            size,
        ));
    }
}

/// To go on with more bytes where the frame loop had to wait is to run it on
/// all of them, and what it stopped at for any other reason it stops at with
/// more bytes behind it, too.
pub proof fn law_reading_in_pieces(
    m: ReadModel,
    more: Seq<u8>,
    max_payload: usize,
    max_flood: usize,
)
    requires
        max_payload <= isize::MAX,
    ensures
        ({
            let (m1, stop) = run_frames(m, max_payload, max_flood);
            let whole = run_frames(with_more(m, more), max_payload, max_flood);
            if stop is Need {
                whole == run_frames(with_more(m1, more), max_payload, max_flood)
            } else {
                whole == (with_more(m1, more), stop)
            }
        }),
    decreases m.pending.len(),
{
    let (m1, stop) = frame_step(m, max_payload, max_flood);
    if !(parse_header(m.pending, max_payload) is Need) {
        lemma_frame_step_more(m, more, max_payload, max_flood);
        if stop is None {
            let m2 = spend(m1);
            if m2.budget > 0 {
                law_frame_fits(m.pending, max_payload);
                law_reading_in_pieces(m2, more, max_payload, max_flood);
                assert(spend(with_more(m1, more)) == with_more(m2, more));
            }
        }
    }
}

/// The loop ends in the flood error, or with a score within the threshold.
pub proof fn law_flood_score_bounded(m: ReadModel, max_payload: usize, max_flood: usize)
    requires
        max_payload <= isize::MAX,
        m.flood_score <= max_flood,
    ensures
        ({
            let (m1, stop) = run_frames(m, max_payload, max_flood);
            m1.flood_score <= max_flood || stop == Stop::Fail(ConnectionError::Flood)
        }),
    decreases m.pending.len(),
{
    let (m1, stop) = frame_step(m, max_payload, max_flood);
    if stop is None {
        let m2 = spend(m1);
        if m2.budget > 0 {
            law_frame_fits(m.pending, max_payload);
            law_flood_score_bounded(m2, max_payload, max_flood);
        }
    }
}

/// A message that a server sends in one frame is read as it was sent, whatever
/// follows it.
pub proof fn law_message_is_read_back(
    m: ReadModel,
    opcode: u8,
    payload: Seq<u8>,
    rest: Seq<u8>,
    max_payload: usize,
    max_flood: usize,
)
    requires
        opcode == OP_TEXT || opcode == OP_BINARY,
        125 <= max_payload <= isize::MAX,
        payload.len() <= max_payload,
        m.pending == server_frame(true, opcode, payload) + rest,
        m.fragment_opcode == 0,
        flood_after_frame(m.flood_score, m.fresh) <= max_flood,
    ensures
        ({
            let (m1, stop) = run_frames(m, max_payload, max_flood);
            stop == Stop::Message(opcode, payload) && m1.pending == rest
        }),
{
    law_server_frame_is_read_back(true, opcode, payload, rest, max_payload);
    let frame = server_frame(true, opcode, payload);
    assert(m.pending.skip(frame.len() as int) =~= rest);
}

/// The frames of a fragmented message after its first: the last one is final.
pub open spec fn continuation_frames(pieces: Seq<Seq<u8>>) -> Seq<u8>
    decreases pieces.len(),
{
    if pieces.len() == 0 {
        Seq::empty()
    } else {
        server_frame(pieces.len() == 1, OP_CONTINUATION, pieces[0]) + continuation_frames(
            pieces.skip(1),
        )
    }
}

/// The rest of a fragmented message completes it: the message is what had come
/// before and the pieces, in order, provided that the frames are within the
/// budget, the flood threshold and the size limit.
pub proof fn law_fragments_are_reassembled(
    m: ReadModel,
    pieces: Seq<Seq<u8>>,
    rest: Seq<u8>,
    max_payload: usize,
    max_flood: usize,
)
    requires
        pieces.len() > 0,
        125 <= max_payload <= isize::MAX,
        m.fragment_opcode == OP_TEXT || m.fragment_opcode == OP_BINARY,
        m.pending == continuation_frames(pieces) + rest,
        m.fragment.len() + concat(pieces).len() <= max_payload,
        m.budget >= pieces.len(),
        m.flood_score + pieces.len() <= max_flood,
    ensures
        ({
            let (m1, stop) = run_frames(m, max_payload, max_flood);
            &&& stop == Stop::Message(m.fragment_opcode, m.fragment + concat(pieces))
            &&& m1.pending == rest
            &&& m1.fragment_opcode == 0
        }),
    decreases pieces.len(),
{
    let first = pieces[0];
    let frame = server_frame(pieces.len() == 1, OP_CONTINUATION, first);
    let tail = continuation_frames(pieces.skip(1)) + rest;
    assert(m.pending =~= frame + tail);
    law_server_frame_is_read_back(
        pieces.len() == 1,
        OP_CONTINUATION,
        first,
        tail,
        max_payload,
    );
    assert(m.pending.skip(frame.len() as int) =~= tail);
    if pieces.len() == 1 {
        assert(pieces.skip(1) =~= Seq::<Seq<u8>>::empty());
        assert(tail =~= rest);
        assert(concat(pieces.skip(1)) =~= Seq::<u8>::empty());
        assert(concat(pieces) =~= first);
    } else {
        let (m1, stop) = frame_step(m, max_payload, max_flood);
        let m2 = spend(m1);
        assert(stop is None);
        law_fragments_are_reassembled(m2, pieces.skip(1), rest, max_payload, max_flood);
        assert(m2.fragment + concat(pieces.skip(1)) =~= m.fragment + concat(pieces));
        assert(frame.len() > 0);
    }
}

/// A fragmented message is read as the pieces it was sent in, put together.
pub proof fn law_fragmented_message_is_read_back(
    m: ReadModel,
    opcode: u8,
    pieces: Seq<Seq<u8>>,
    rest: Seq<u8>,
    max_payload: usize,
    max_flood: usize,
)
    requires
        opcode == OP_TEXT || opcode == OP_BINARY,
        pieces.len() > 1,
        125 <= max_payload <= isize::MAX,
        m.fragment_opcode == 0,
        m.pending == server_frame(false, opcode, pieces[0]) + continuation_frames(pieces.skip(1))
            + rest,
        concat(pieces).len() <= max_payload,
        m.budget >= pieces.len(),
        m.flood_score + pieces.len() <= max_flood,
    ensures
        ({
            let (m1, stop) = run_frames(m, max_payload, max_flood);
            stop == Stop::Message(opcode, concat(pieces)) && m1.pending == rest
        }),
{
    let first = pieces[0];
    let frame = server_frame(false, opcode, first);
    let tail = continuation_frames(pieces.skip(1)) + rest;
    assert(m.pending =~= frame + tail);
    law_server_frame_is_read_back(false, opcode, first, tail, max_payload);
    assert(m.pending.skip(frame.len() as int) =~= tail);
    let (m1, stop) = frame_step(m, max_payload, max_flood);
    assert(stop is None);
    law_fragments_are_reassembled(spend(m1), pieces.skip(1), rest, max_payload, max_flood);
    assert(frame.len() > 0);
}

/// No message is larger than the limit, nor is a fragmented one while it is
/// being put together.
pub proof fn law_message_within_limit(m: ReadModel, max_payload: usize, max_flood: usize)
    requires
        125 <= max_payload <= isize::MAX,
        m.fragment.len() <= max_payload,
    ensures
        ({
            let (m1, stop) = run_frames(m, max_payload, max_flood);
            &&& m1.fragment.len() <= max_payload
            &&& stop matches Stop::Message(_, bytes) ==> bytes.len() <= max_payload
        }),
    decreases m.pending.len(),
{
    let (m1, stop) = frame_step(m, max_payload, max_flood);
    if parse_header(m.pending, max_payload) is Frame {
        law_frame_fits(m.pending, max_payload);
    }
    if stop is None {
        let m2 = spend(m1);
        if m2.budget > 0 {
            law_message_within_limit(m2, max_payload, max_flood);
        }
    }
}

/// The payloads of pings and close frames are those of control frames, so that
/// they can be answered in kind.
pub proof fn law_control_payloads_are_short(m: ReadModel, max_payload: usize, max_flood: usize)
    requires
        max_payload <= isize::MAX,
    ensures
        run_frames(m, max_payload, max_flood).1 matches Stop::Ping(payload) ==> payload.len()
            <= 125,
        run_frames(m, max_payload, max_flood).1 matches Stop::Close(payload) ==> payload.len()
            <= 125,
    decreases m.pending.len(),
{
    let (m1, stop) = frame_step(m, max_payload, max_flood);
    if parse_header(m.pending, max_payload) is Frame {
        law_frame_fits(m.pending, max_payload);
    }
    if stop is None {
        let m2 = spend(m1);
        if m2.budget > 0 {
            law_control_payloads_are_short(m2, max_payload, max_flood);
        }
    }
}

/// How many frames the loop takes in without stopping at them.
pub open spec fn frames_taken(m: ReadModel, max_payload: usize, max_flood: usize) -> nat
    decreases m.pending.len(),
    when max_payload <= isize::MAX
    via frames_taken_decreases
{
    let (m1, stop) = frame_step(m, max_payload, max_flood);
    let m2 = spend(m1);
    if stop is Some {
        0
    } else if m2.budget == 0 {
        1
    } else {
        1 + frames_taken(m2, max_payload, max_flood)
    }
}

#[via_fn]
proof fn frames_taken_decreases(m: ReadModel, max_payload: usize, max_flood: usize) {
    if parse_header(m.pending, max_payload) is Frame {
        law_frame_fits(m.pending, max_payload);
    }
}

/// The frame budget bounds how many frames are taken in without a message.
pub proof fn law_frame_budget(m: ReadModel, max_payload: usize, max_flood: usize)
    requires
        max_payload <= isize::MAX,
        m.budget >= 1,
    ensures
        frames_taken(m, max_payload, max_flood) <= m.budget,
    decreases m.pending.len(),
{
    let (m1, stop) = frame_step(m, max_payload, max_flood);
    let m2 = spend(m1);
    if stop is None && m2.budget > 0 {
        law_frame_fits(m.pending, max_payload);
        law_frame_budget(m2, max_payload, max_flood);
    }
}

/// What some writes of unsent bytes send, and what they leave unsent.
pub open spec fn drained(unsent: Seq<u8>, outcomes: Seq<Result<usize, IoError>>) -> (
    Seq<u8>,
    Seq<u8>,
)
    decreases outcomes.len(),
{
    if outcomes.len() == 0 {
        (Seq::empty(), unsent)
    } else {
        let (sent, rest) = drained(unsent, outcomes.drop_last());
        match write_result(outcomes.last()) {
            Ok(n) => (sent + rest.take(n), rest.skip(n)),
            Err(_) => (sent, rest),
        }
    }
}

/// Each write is of what is unsent then, and takes no more than it is given.
pub open spec fn writes_fit(unsent: Seq<u8>, outcomes: Seq<Result<usize, IoError>>) -> bool
    decreases outcomes.len(),
{
    outcomes.len() > 0 ==> {
        &&& writes_fit(unsent, outcomes.drop_last())
        &&& outcomes.last() matches Ok(n) ==> n <= drained(unsent, outcomes.drop_last()).1.len()
    }
}

/// However writes are cut short, interrupted or fail, nothing is lost, sent
/// twice or sent out of order.
pub proof fn law_bytes_are_sent_in_order(unsent: Seq<u8>, outcomes: Seq<Result<usize, IoError>>)
    requires
        writes_fit(unsent, outcomes),
    ensures
        ({
            let (sent, rest) = drained(unsent, outcomes);
            sent + rest == unsent
        }),
    decreases outcomes.len(),
{
    if outcomes.len() == 0 {
        assert(Seq::<u8>::empty() + unsent =~= unsent);
    } else {
        law_bytes_are_sent_in_order(unsent, outcomes.drop_last());
        let (sent, rest) = drained(unsent, outcomes.drop_last());
        if let Ok(n) = write_result(outcomes.last()) {
            assert(sent + rest.take(n) + rest.skip(n) =~= sent + rest);
        }
    }
}

/// The end of a response's headers, once found, stays where it is when more
/// bytes arrive; and headers that are too large stay too large.
pub proof fn law_header_end_is_stable(data: Seq<u8>, more: Seq<u8>)
    requires
        !(header_search(data) matches Ok(None)),
    ensures
        header_search(data + more) == header_search(data),
{
    let all = data + more;
    let seen = header_window(data);
    let seen_all = header_window(all);
    assert forall|k: int| k < seen.len() implies #[trigger] blank_line_at(seen_all, k)
        == blank_line_at(seen, k) by {
        if 0 <= k {
            assert(seen_all[k] == seen[k]);
            if k >= 1 {
                assert(seen_all[k - 1] == seen[k - 1]);
            }
            if k >= 2 {
                assert(seen_all[k - 2] == seen[k - 2]);
            }
        }
    }
    if exists|end: int| header_block_ends(seen, end) {
        let end = choose|end: int| header_block_ends(seen, end);
        assert(blank_line_at(seen, end - 1));
        assert(header_block_ends(seen_all, end)) by {
            assert(blank_line_at(seen_all, end - 1));
            assert forall|k: int| k < end - 1 implies !#[trigger] blank_line_at(seen_all, k) by {
                assert(!blank_line_at(seen, k));
            }
        }
        lemma_header_search(all, end);
        lemma_header_search(data, end);
    } else {
        assert(seen_all =~= seen);
    }
}

/// Text that a server sends in one frame is delivered as it was, whatever
/// follows it.
pub proof fn law_text_is_delivered<R: Rng>(
    m: ReadModel,
    unsent: Seq<u8>,
    s: Session,
    rng: R,
    b1: Buffers,
    s1: Session,
    rng1: R,
    outcome: ReadOutcome,
    now: u64,
    r: Result<ReadStatus<'_>, Error>,
    s2: Session,
    text: Seq<char>,
    rest: Seq<u8>,
)
    requires
        s.wf(),
        m.pending == server_frame(true, OP_TEXT, encode_utf8(text)) + rest,
        m.fragment_opcode == 0,
        encode_utf8(text).len() <= s.max_payload,
        flood_after_frame(m.flood_score, m.fresh) <= s.max_flood_score,
        frames_lead_to(m, unsent, s, rng, b1, s1, rng1, ReadProgress::Done(outcome)),
        read_comes_to(b1, s1, outcome, now, r, s2),
    ensures
        r matches Ok(ReadStatus::Message(Message::Text(t))) && t@ == text,
        b1.read.pending_bytes() == rest,
        s2.last_activity == Some(now),
{
    law_message_is_read_back(
        m,
        OP_TEXT,
        encode_utf8(text),
        rest,
        s.max_payload,
        s.max_flood_score,
    );
    encode_utf8_valid_utf8(text);
    encode_utf8_decode_utf8(text);
    if let Ok(ReadStatus::Message(Message::Text(t))) = r {
        encode_utf8_decode_utf8(t@);
    }
}

/// A response is accepted only if it has the right status, gives the answer to
/// the key, and agrees to the upgrade; a selected subprotocol was offered.
pub proof fn law_accepted_response(
    head: Seq<u8>,
    accept: Seq<u8>,
    offered: Option<Seq<char>>,
    selected: Option<Seq<char>>,
)
    requires
        response_result(head, accept, offered) == Ok::<Option<Seq<char>>, ConnectionError>(
            selected,
        ),
    ensures
        status_ok(head),
        first_field(lines(head), encode_utf8("sec-websocket-accept"@)) == Some(accept),
        any_field_has(lines(head), encode_utf8("upgrade"@), encode_utf8("websocket"@)),
        any_field_has(lines(head), encode_utf8("connection"@), encode_utf8("upgrade"@)),
        selected matches Some(name) ==> offered is Some && offers(offered->0, name),
{
}

/// Once a close frame was sent or received, or the connection has failed,
/// nothing more can be sent.
pub proof fn law_nothing_is_sent_after_close<R: Rng>(
    unsent: Seq<u8>,
    s: Session,
    rng: R,
    kind: SendKind,
    payload: Seq<u8>,
    r: SendProgress,
    unsent1: Seq<u8>,
    s1: Session,
    rng1: R,
)
    requires
        s.close_state != CloseState::Open,
        send_begins(unsent, s, rng, kind, payload, r, unsent1, s1, rng1),
    ensures
        r == SendProgress::Done(Err(Error::Fatal(CallerError::Closing))),
        unsent1 == unsent,
        s1 == s,
{
}

/// A read that fails leaves the connection closed; one that does not fail
/// leaves it as open as it was.
pub proof fn law_failed_read_closes(
    b: Buffers,
    s: Session,
    outcome: ReadOutcome,
    now: u64,
    r: Result<ReadStatus<'_>, Error>,
    s1: Session,
)
    requires
        read_comes_to(b, s, outcome, now, r, s1),
    ensures
        r is Err ==> s1.close_state == CloseState::Closed,
        r is Ok ==> s1.close_state == s.close_state,
{
}

proof fn lemma_newlines_concat(a: Seq<u8>, b: Seq<u8>)
    ensures
        newlines(a + b).len() == newlines(a).len() + newlines(b).len(),
    decreases b.len(),
{
    if b.len() == 0 {
        assert(a + b =~= a);
    } else {
        lemma_newlines_concat(a, b.drop_last());
        assert((a + b).drop_last() =~= a + b.drop_last());
    }
}

proof fn lemma_newlines_none(a: Seq<u8>)
    requires
        forall|i: int| 0 <= i < a.len() ==> a[i] != 10,
    ensures
        newlines(a).len() == 0,
    decreases a.len(),
{
    if a.len() > 0 {
        lemma_newlines_none(a.drop_last());
    }
}

/// No header can smuggle in another one: accepted headers take one line each.
pub proof fn law_one_line_per_header(headers: Seq<(&str, &str)>)
    requires
        forall|i: int|
            0 <= i < headers.len() ==> #[trigger] header_ok(headers[i].0@, headers[i].1@),
    ensures
        newlines(header_lines(headers)).len() == headers.len(),
    decreases headers.len(),
{
    if headers.len() > 0 {
        let init = headers.drop_last();
        assert forall|i: int| 0 <= i < init.len() implies #[trigger] header_ok(
            init[i].0@,
            init[i].1@,
        ) by {
            assert(header_ok(headers[i].0@, headers[i].1@));
        }
        law_one_line_per_header(init);
        let name = encode_utf8(headers.last().0@);
        let value = encode_utf8(headers.last().1@);
        assert(header_ok(headers[headers.len() - 1].0@, headers[headers.len() - 1].1@));
        let line = header_line(name, value);
        let colon = encode_utf8(": "@);
        let crlf = encode_utf8("\r\n"@);
        reveal_strlit(": ");
        reveal_strlit("\r\n");
        is_ascii_chars_encode_utf8(": "@);
        is_ascii_chars_encode_utf8("\r\n"@);
        assert(colon =~= seq![58u8, 32u8]);
        assert(crlf =~= seq![13u8, 10u8]);
        lemma_newlines_none(name);
        lemma_newlines_none(colon);
        lemma_newlines_none(value);
        lemma_newlines_concat(name, colon);
        lemma_newlines_concat(name + colon, value);
        lemma_newlines_concat(name + colon + value, crlf);
        assert(newlines(crlf).len() == 1) by {
            assert(crlf.drop_last() =~= seq![13u8]);
            lemma_newlines_none(crlf.drop_last());
        }
        lemma_newlines_concat(header_lines(init), line);
    }
}

} // verus!
