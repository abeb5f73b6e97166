//! What holds of frames, whoever writes and reads them.
use vstd::prelude::*;

use crate::bytes::{be_bytes, law_be_round_trip, lemma_be_bytes_len, lemma_pow256_values};
use crate::ws::frame::{
    client_frame, masked, parse_header, server_frame, Header, FIN, LEN_MASK,
    MASK_BIT, OPCODE_MASK, OP_CLOSE, RESERVED_MASK,
};

verus! {

/// Masking twice with one key gives the data back.
pub proof fn law_mask_involution(data: Seq<u8>, mask: Seq<u8>)
    requires
        mask.len() == 4,
    ensures
        masked(masked(data, mask), mask) == data,
{
    let twice = masked(masked(data, mask), mask);
    assert forall|i: int| 0 <= i < data.len() implies twice[i] == data[i] by {
        let a = data[i];
        let m = mask[i % 4];
        assert((a ^ m) ^ m == a) by (bit_vector);
    }
    assert(twice =~= data);
}

/// What has been decided about a frame stays so when more bytes arrive.
pub proof fn law_header_stable(b: Seq<u8>, more: Seq<u8>, max_payload: usize)
    requires
        !(parse_header(b, max_payload) is Need),
    ensures
        parse_header(b + more, max_payload) == parse_header(b, max_payload),
{
    let c = b + more;
    if b.len() >= 4 {
        assert(c.subrange(2, 4) =~= b.subrange(2, 4));
    }
    if b.len() >= 10 {
        assert(c.subrange(2, 10) =~= b.subrange(2, 10));
    }
}

/// A request for more bytes asks for more than there are, and stands until
/// that many bytes have arrived.
pub proof fn law_header_need(b: Seq<u8>, more: Seq<u8>, max_payload: usize)
    requires
        max_payload <= isize::MAX,
        parse_header(b, max_payload) is Need,
    ensures
        parse_header(b, max_payload)->Need_0 > b.len(),
        b.len() + more.len() < parse_header(b, max_payload)->Need_0 ==> parse_header(
            b + more,
            max_payload,
        ) == parse_header(b, max_payload),
{
    let c = b + more;
    if b.len() >= 4 {
        assert(c.subrange(2, 4) =~= b.subrange(2, 4));
    }
    if b.len() >= 10 {
        assert(c.subrange(2, 10) =~= b.subrange(2, 10));
    }
}

/// A whole frame is no longer than the bytes it was found in.
pub proof fn law_frame_fits(b: Seq<u8>, max_payload: usize)
    requires
        max_payload <= isize::MAX,
        parse_header(b, max_payload) is Frame,
    ensures
        ({
            let h = parse_header(b, max_payload);
            &&& 2 <= h->header_len
            &&& h->header_len + h->payload_len <= b.len()
            &&& h->payload_len <= max_payload || h->payload_len <= 125
        }),
{
    let x = b[1];
    assert(x & LEN_MASK <= 127) by (bit_vector);
}

proof fn lemma_header_bits(fin: bool, opcode: u8)
    requires
        opcode < 16,
    ensures
        ({
            let first = if fin {
                FIN | opcode
            } else {
                opcode
            };
            &&& first & RESERVED_MASK == 0
            &&& (first & FIN != 0) == fin
            &&& first & OPCODE_MASK == opcode
        }),
{
    assert((0b1000_0000u8 | opcode) & 0b0111_0000u8 == 0 && (0b1000_0000u8 | opcode)
        & 0b1000_0000u8 != 0 && (0b1000_0000u8 | opcode) & 0b0000_1111u8 == opcode && opcode
        & 0b0111_0000u8 == 0 && opcode & 0b1000_0000u8 == 0 && opcode & 0b0000_1111u8 == opcode)
        by (bit_vector)
        requires
            opcode < 16,
    ;
}

proof fn lemma_length_bits(n: u8)
    requires
        n < 128,
    ensures
        0u8 | n == n,
        n & LEN_MASK == n,
        n & MASK_BIT == 0,
        (MASK_BIT | n) & MASK_BIT != 0,
        (MASK_BIT | n) & LEN_MASK == n,
{
    assert(0u8 | n == n && n & 0b0111_1111u8 == n && n & 0b1000_0000u8 == 0 && (0b1000_0000u8 | n)
        & 0b1000_0000u8 != 0 && (0b1000_0000u8 | n) & 0b0111_1111u8 == n) by (bit_vector)
        requires
            n < 128,
    ;
}

/// What a server writes, the client reads: any payload within the limits
/// comes out of its frame as it went in, whatever bytes follow.
pub proof fn law_server_frame_is_read_back(
    fin: bool,
    opcode: u8,
    payload: Seq<u8>,
    rest: Seq<u8>,
    max_payload: usize,
)
    requires
        opcode < 16,
        opcode >= OP_CLOSE ==> fin && payload.len() <= 125,
        payload.len() <= max_payload || payload.len() <= 125,
        max_payload <= isize::MAX,
    ensures
        ({
            let frame = server_frame(fin, opcode, payload);
            let header_len = frame.len() - payload.len();
            &&& 2 <= header_len <= 10
            &&& parse_header(frame + rest, max_payload) == (Header::Frame {
                fin,
                opcode,
                header_len: header_len as usize,
                payload_len: payload.len() as usize,
            })
            &&& (frame + rest).subrange(header_len, frame.len() as int) == payload
        }),
{
    let frame = server_frame(fin, opcode, payload);
    let b = frame + rest;
    let n = payload.len();
    lemma_header_bits(fin, opcode);
    lemma_pow256_values();
    if n < 126 {
        lemma_length_bits(n as u8);
    } else if n < 65536 {
        lemma_length_bits(126);
        law_be_round_trip(n, 2);
        assert(b.subrange(2, 4) =~= be_bytes(n, 2));
    } else {
        lemma_length_bits(127);
        law_be_round_trip(n, 8);
        assert(b.subrange(2, 10) =~= be_bytes(n, 8));
    }
    assert(b.subrange(frame.len() - n, frame.len() as int) =~= payload);
}

/// What the client writes, a server reads: the frame's key, applied to what
/// follows it, gives the payload back, and without the mask the frame is the
/// one that a server would write.
pub proof fn law_client_frame_unmasks(opcode: u8, payload: Seq<u8>, mask: Seq<u8>)
    requires
        mask.len() == 4,
    ensures
        ({
            let frame = client_frame(opcode, payload, mask);
            let header_len = frame.len() - payload.len();
            &&& frame[1] & MASK_BIT != 0
            &&& frame.subrange(header_len - 4, header_len) == mask
            &&& masked(frame.skip(header_len), mask) == payload
            &&& seq![frame[0], frame[1] & LEN_MASK] + frame.subrange(2, header_len - 4) + payload
                == server_frame(true, opcode, payload)
        }),
{
    let frame = client_frame(opcode, payload, mask);
    let n = payload.len();
    let header_len = frame.len() - n;
    let first = if n < 126 {
        n as u8
    } else if n < 65536 {
        126u8
    } else {
        127u8
    };
    lemma_length_bits(first);
    lemma_length_field_lens(n);
    law_mask_involution(payload, mask);
    assert(frame.subrange(header_len - 4, header_len) =~= mask);
    assert(frame.skip(header_len) =~= masked(payload, mask));
    assert(seq![frame[0], frame[1] & LEN_MASK] + frame.subrange(2, header_len - 4) + payload
        =~= server_frame(true, opcode, payload));
}

proof fn lemma_length_field_lens(n: nat)
    ensures
        be_bytes(n, 2).len() == 2,
        be_bytes(n, 8).len() == 8,
{
    lemma_be_bytes_len(n, 2);
    lemma_be_bytes_len(n, 8);
}

} // verus!
