//! Messages that come in pieces, with control frames in between.
use vstd::prelude::*;

use crate::ws::frame::{
    server_frame, OP_BINARY, OP_CLOSE, OP_CONTINUATION, OP_PING, OP_PONG, OP_TEXT,
};
use crate::ws::frame_laws::{law_frame_fits, law_server_frame_is_read_back};
use crate::ws::proto::{
    flood_after_frame, frame_effect, frame_step, run_frames, spend, ReadModel, Stop,
};
use crate::ws::read_laws::whole_read;

verus! {

/// A frame of a message that a server sends in pieces, with control frames in
/// between.
pub enum Part {
    Data(Seq<u8>),
    Ping(Seq<u8>),
    Pong(Seq<u8>),
}

/// The parts as they are sent; the last one is final.  `opcode` is that of the
/// next piece.
pub open spec fn parts_wire(parts: Seq<Part>, opcode: u8) -> Seq<u8>
    decreases parts.len(),
{
    if parts.len() == 0 {
        Seq::empty()
    } else {
        match parts[0] {
            Part::Data(piece) => server_frame(parts.len() == 1, opcode, piece) + parts_wire(
                parts.skip(1),
                OP_CONTINUATION,
            ),
            Part::Ping(payload) => server_frame(true, OP_PING, payload) + parts_wire(
                parts.skip(1),
                opcode,
            ),
            Part::Pong(payload) => server_frame(true, OP_PONG, payload) + parts_wire(
                parts.skip(1),
                opcode,
            ),
        }
    }
}

/// The message that the pieces make.
pub open spec fn parts_data(parts: Seq<Part>) -> Seq<u8>
    decreases parts.len(),
{
    if parts.len() == 0 {
        Seq::empty()
    } else {
        match parts[0] {
            Part::Data(piece) => piece + parts_data(parts.skip(1)),
            _ => parts_data(parts.skip(1)),
        }
    }
}

/// The pongs that the pings ask for.
pub open spec fn parts_replies(parts: Seq<Part>) -> Seq<(u8, Seq<u8>)>
    decreases parts.len(),
{
    if parts.len() == 0 {
        Seq::empty()
    } else {
        match parts[0] {
            Part::Ping(payload) => seq![(OP_PONG, payload)] + parts_replies(parts.skip(1)),
            _ => parts_replies(parts.skip(1)),
        }
    }
}

/// Control frames are short, and the message ends with its last piece.
pub open spec fn parts_ok(parts: Seq<Part>) -> bool {
    &&& parts.len() > 0
    &&& parts.last() is Data
    &&& forall|i: int|
        0 <= i < parts.len() ==> match #[trigger] parts[i] {
            Part::Data(_) => true,
            Part::Ping(payload) => payload.len() <= 125,
            Part::Pong(payload) => payload.len() <= 125,
        }
}

/// The next frame of the pending bytes is that one.
proof fn lemma_next_frame(
    m: ReadModel,
    fin: bool,
    opcode: u8,
    payload: Seq<u8>,
    tail: Seq<u8>,
    max_payload: usize,
    max_flood: usize,
)
    requires
        opcode < 16,
        opcode >= OP_CLOSE ==> fin && payload.len() <= 125,
        payload.len() <= max_payload || payload.len() <= 125,
        max_payload <= isize::MAX,
        m.pending == server_frame(fin, opcode, payload) + tail,
        m.flood_score < max_flood,
    ensures
        tail.len() < m.pending.len(),
        ({
            let m1 = ReadModel {
                pending: tail,
                flood_score: flood_after_frame(m.flood_score, m.fresh),
                fresh: 0,
                ..m
            };
            frame_step(m, max_payload, max_flood) == frame_effect(
                m1,
                max_payload,
                fin,
                opcode,
                payload,
            )
        }),
{
    let frame = server_frame(fin, opcode, payload);
    law_server_frame_is_read_back(fin, opcode, payload, tail, max_payload);
    assert(m.pending.skip(frame.len() as int) =~= tail);
}

/// A read past the next frame, whatever it is.
proof fn lemma_whole_read_step(m: ReadModel, max_payload: usize, max_flood: usize, open: bool)
    requires
        max_payload <= isize::MAX,
    ensures
        ({
            let (m1, stop) = frame_step(m, max_payload, max_flood);
            let m2 = spend(m1);
            let whole = whole_read(m, max_payload, max_flood, open);
            match stop {
                None => m2.budget > 0 ==> whole == whole_read(m2, max_payload, max_flood, open),
                Some(Stop::Ping(payload)) => m2.budget > 0 ==> {
                    let left = whole_read(
                        ReadModel { fresh: 0, ..m2 },
                        max_payload,
                        max_flood,
                        open,
                    );
                    whole == (seq![(OP_PONG, payload)] + left.0, left.1)
                },
                Some(Stop::Message(op, bytes)) => whole == (
                    Seq::<(u8, Seq<u8>)>::empty(),
                    Stop::Message(op, bytes),
                ),
                _ => true,
            }
        }),
{
    reveal_with_fuel(whole_read, 2);
    let (m1, stop) = frame_step(m, max_payload, max_flood);
    let m2 = spend(m1);
    if stop is None && m2.budget > 0 {
        law_frame_fits(m.pending, max_payload);
        assert(run_frames(m, max_payload, max_flood) == run_frames(m2, max_payload, max_flood));
    }
}

/// What has come of the message in progress.
spec fn held(m: ReadModel) -> Seq<u8> {
    if m.fragment_opcode == 0 {
        Seq::empty()
    } else {
        m.fragment
    }
}

/// `m` after one more frame, with `tail` left and that of the message held.
spec fn past_frame(m: ReadModel, tail: Seq<u8>, opcode: u8, fragment: Seq<u8>) -> ReadModel {
    ReadModel {
        pending: tail,
        fragment,
        fragment_opcode: opcode,
        flood_score: flood_after_frame(m.flood_score, m.fresh),
        budget: (m.budget - 1) as usize,
        fresh: 0,
    }
}

/// A piece that is not the last one.
proof fn lemma_piece(
    m: ReadModel,
    opcode: u8,
    piece: Seq<u8>,
    tail: Seq<u8>,
    max_payload: usize,
    max_flood: usize,
    open: bool,
)
    requires
        opcode == OP_TEXT || opcode == OP_BINARY,
        max_payload <= isize::MAX,
        m.fragment_opcode == 0 || m.fragment_opcode == opcode,
        m.pending == server_frame(
            false,
            if m.fragment_opcode == 0 {
                opcode
            } else {
                OP_CONTINUATION
            },
            piece,
        ) + tail,
        held(m).len() + piece.len() <= max_payload,
        m.budget >= 2,
        m.flood_score < max_flood,
    ensures
        whole_read(m, max_payload, max_flood, open) == whole_read(
            past_frame(m, tail, opcode, held(m) + piece),
            max_payload,
            max_flood,
            open,
        ),
{
    let next = if m.fragment_opcode == 0 {
        opcode
    } else {
        OP_CONTINUATION
    };
    lemma_next_frame(m, false, next, piece, tail, max_payload, max_flood);
    lemma_whole_read_step(m, max_payload, max_flood, open);
    let m2 = spend(frame_step(m, max_payload, max_flood).0);
    let fragment = held(m) + piece;
    assert(m2.fragment =~= fragment);
    assert(m2 == past_frame(m, tail, opcode, fragment));
}

/// The last piece.
proof fn lemma_last_piece(
    m: ReadModel,
    opcode: u8,
    piece: Seq<u8>,
    tail: Seq<u8>,
    max_payload: usize,
    max_flood: usize,
    open: bool,
)
    requires
        opcode == OP_TEXT || opcode == OP_BINARY,
        max_payload <= isize::MAX,
        m.fragment_opcode == 0 || m.fragment_opcode == opcode,
        m.pending == server_frame(
            true,
            if m.fragment_opcode == 0 {
                opcode
            } else {
                OP_CONTINUATION
            },
            piece,
        ) + tail,
        held(m).len() + piece.len() <= max_payload,
        m.flood_score < max_flood,
    ensures
        whole_read(m, max_payload, max_flood, open) == (
            Seq::<(u8, Seq<u8>)>::empty(),
            Stop::Message(opcode, held(m) + piece),
        ),
{
    let next = if m.fragment_opcode == 0 {
        opcode
    } else {
        OP_CONTINUATION
    };
    lemma_next_frame(m, true, next, piece, tail, max_payload, max_flood);
    lemma_whole_read_step(m, max_payload, max_flood, open);
    assert(m.fragment_opcode == 0 ==> held(m) + piece =~= piece);
}

/// A control frame in between.
proof fn lemma_control(
    m: ReadModel,
    ping: bool,
    payload: Seq<u8>,
    tail: Seq<u8>,
    max_payload: usize,
    max_flood: usize,
    open: bool,
)
    requires
        max_payload <= isize::MAX,
        payload.len() <= 125,
        m.pending == server_frame(
            true,
            if ping {
                OP_PING
            } else {
                OP_PONG
            },
            payload,
        ) + tail,
        m.budget >= 2,
        m.flood_score < max_flood,
    ensures
        ({
            let left = whole_read(
                past_frame(m, tail, m.fragment_opcode, m.fragment),
                max_payload,
                max_flood,
                open,
            );
            whole_read(m, max_payload, max_flood, open) == (
                if ping {
                    seq![(OP_PONG, payload)] + left.0
                } else {
                    left.0
                },
                left.1,
            )
        }),
{
    let opcode = if ping {
        OP_PING
    } else {
        OP_PONG
    };
    lemma_next_frame(m, true, opcode, payload, tail, max_payload, max_flood);
    lemma_whole_read_step(m, max_payload, max_flood, open);
    let m2 = spend(frame_step(m, max_payload, max_flood).0);
    assert(m2 == past_frame(m, tail, m.fragment_opcode, m.fragment));
}

/// The rest of a message, in pieces and with control frames in between,
/// completes it.
proof fn lemma_parts_are_read(
    m: ReadModel,
    opcode: u8,
    parts: Seq<Part>,
    rest: Seq<u8>,
    max_payload: usize,
    max_flood: usize,
    open: bool,
)
    requires
        opcode == OP_TEXT || opcode == OP_BINARY,
        125 <= max_payload <= isize::MAX,
        parts_ok(parts),
        m.fragment_opcode == 0 || m.fragment_opcode == opcode,
        m.pending == parts_wire(
            parts,
            if m.fragment_opcode == 0 {
                opcode
            } else {
                OP_CONTINUATION
            },
        ) + rest,
        held(m).len() + parts_data(parts).len() <= max_payload,
        m.budget >= parts.len(),
        m.flood_score + parts.len() <= max_flood,
    ensures
        whole_read(m, max_payload, max_flood, open) == (
            parts_replies(parts),
            Stop::Message(opcode, held(m) + parts_data(parts)),
        ),
    decreases parts.len(),
{
    let next = if m.fragment_opcode == 0 {
        opcode
    } else {
        OP_CONTINUATION
    };
    let more = parts.skip(1);
    if parts.len() == 1 {
        assert(more =~= Seq::<Part>::empty());
        assert(parts_data(more) =~= Seq::<u8>::empty());
        assert(parts_replies(more) =~= Seq::<(u8, Seq<u8>)>::empty());
        assert(parts_wire(more, OP_CONTINUATION) =~= Seq::<u8>::empty());
        if let Part::Data(piece) = parts[0] {
            assert(m.pending =~= server_frame(true, next, piece) + rest);
            assert(parts_data(parts) =~= piece);
            lemma_last_piece(m, opcode, piece, rest, max_payload, max_flood, open);
        }
    } else {
        assert(more.last() == parts.last());
        assert forall|i: int| 0 <= i < more.len() implies match #[trigger] more[i] {
            Part::Data(_) => true,
            Part::Ping(payload) => payload.len() <= 125,
            Part::Pong(payload) => payload.len() <= 125,
        } by {
            assert(more[i] == parts[i + 1]);
        }
        match parts[0] {
            Part::Data(piece) => {
                let tail = parts_wire(more, OP_CONTINUATION) + rest;
                assert(m.pending =~= server_frame(false, next, piece) + tail);
                lemma_piece(m, opcode, piece, tail, max_payload, max_flood, open);
                let m2 = past_frame(m, tail, opcode, held(m) + piece);
                lemma_parts_are_read(m2, opcode, more, rest, max_payload, max_flood, open);
                assert(held(m2) + parts_data(more) =~= held(m) + parts_data(parts));
            },
            Part::Ping(payload) => {
                let tail = parts_wire(more, next) + rest;
                assert(m.pending =~= server_frame(true, OP_PING, payload) + tail);
                lemma_control(m, true, payload, tail, max_payload, max_flood, open);
                let m2 = past_frame(m, tail, m.fragment_opcode, m.fragment);
                lemma_parts_are_read(m2, opcode, more, rest, max_payload, max_flood, open);
            },
            Part::Pong(payload) => {
                let tail = parts_wire(more, next) + rest;
                assert(m.pending =~= server_frame(true, OP_PONG, payload) + tail);
                lemma_control(m, false, payload, tail, max_payload, max_flood, open);
                let m2 = past_frame(m, tail, m.fragment_opcode, m.fragment);
                lemma_parts_are_read(m2, opcode, more, rest, max_payload, max_flood, open);
            },
        }
    }
}

/// A message that a server sends in pieces, with pings and pongs in between, is
/// read as the pieces put together, and each ping is answered, in order.
pub proof fn law_message_among_control_frames(
    m: ReadModel,
    opcode: u8,
    parts: Seq<Part>,
    rest: Seq<u8>,
    max_payload: usize,
    max_flood: usize,
    open: bool,
)
    requires
        opcode == OP_TEXT || opcode == OP_BINARY,
        125 <= max_payload <= isize::MAX,
        parts_ok(parts),
        m.fragment_opcode == 0,
        m.pending == parts_wire(parts, opcode) + rest,
        parts_data(parts).len() <= max_payload,
        m.budget >= parts.len(),
        m.flood_score + parts.len() <= max_flood,
    ensures
        whole_read(m, max_payload, max_flood, open) == (
            parts_replies(parts),
            Stop::Message(opcode, parts_data(parts)),
        ),
{
    lemma_parts_are_read(m, opcode, parts, rest, max_payload, max_flood, open);
    assert(held(m) + parts_data(parts) =~= parts_data(parts));
}

} // verus!
