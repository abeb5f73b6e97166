//! WebSocket frames on the wire (RFC 6455 section 5).
use vstd::prelude::*;

use crate::bytes::{be_bytes, be_value, read_be, to_be};
use crate::ext::{bytes_in_memory, native_bytes};
use crate::ws::error::{CallerError, ConnectionError};
use crate::ws::rng::{drew, Rng};
use crate::ws::send_buf::SendBuf;

verus! {

// Frame header bits.
pub const FIN: u8 = 0b1000_0000;

pub const RESERVED_MASK: u8 = 0b0111_0000;

pub const OPCODE_MASK: u8 = 0b0000_1111;

pub const MASK_BIT: u8 = 0b1000_0000;

pub const LEN_MASK: u8 = 0b0111_1111;

// Opcodes.
pub const OP_CONTINUATION: u8 = 0x0;

pub const OP_TEXT: u8 = 0x1;

pub const OP_BINARY: u8 = 0x2;

pub const OP_CLOSE: u8 = 0x8;

pub const OP_PING: u8 = 0x9;

pub const OP_PONG: u8 = 0xA;

/// What the bytes at the start of the pending data say of the next frame.
#[derive(Debug)]
pub enum Header {
    /// That many bytes are needed before more can be said.
    Need(usize),
    /// The frame is refused.
    Bad(ConnectionError),
    /// A whole frame is there.
    Frame { fin: bool, opcode: u8, header_len: usize, payload_len: usize },
}

/// The frame with the given header, once its length is known.
pub open spec fn sized_frame(b: Seq<u8>, header_len: nat, payload_len: nat) -> Header {
    let fin = b[0] & FIN != 0;
    let opcode = b[0] & OPCODE_MASK;
    if opcode >= OP_CLOSE && !fin {
        Header::Bad(ConnectionError::FragmentedControl)
    } else if opcode >= OP_CLOSE && payload_len > 125 {
        Header::Bad(ConnectionError::ControlPayloadTooLarge(payload_len as usize))
    } else if b.len() < header_len + payload_len {
        Header::Need((header_len + payload_len) as usize)
    } else {
        Header::Frame {
            fin,
            opcode,
            header_len: header_len as usize,
            payload_len: payload_len as usize,
        }
    }
}

/// What `b` says of the frame that starts with it, where payloads of up to
/// `max_payload` bytes are accepted.
pub open spec fn parse_header(b: Seq<u8>, max_payload: usize) -> Header {
    if b.len() < 2 {
        Header::Need(2)
    } else if b[0] & RESERVED_MASK != 0 {
        Header::Bad(ConnectionError::BadReservedBits(b[0] & RESERVED_MASK))
    } else if b[1] & MASK_BIT != 0 {
        Header::Bad(ConnectionError::MaskedServerFrame)
    } else if b[1] & LEN_MASK <= 125 {
        sized_frame(b, 2, (b[1] & LEN_MASK) as nat)
    } else if b[1] & LEN_MASK == 126 {
        if b.len() < 4 {
            Header::Need(4)
        } else {
            let len = be_value(b.subrange(2, 4));
            if len < 126 {
                Header::Bad(ConnectionError::NonMinimalLength)
            } else if len > max_payload {
                Header::Bad(ConnectionError::PayloadTooLarge(len as u64))
            } else {
                sized_frame(b, 4, len)
            }
        }
    } else {
        if b.len() < 10 {
            Header::Need(10)
        } else {
            let len = be_value(b.subrange(2, 10));
            if len >= 0x8000_0000_0000_0000 {
                Header::Bad(ConnectionError::PayloadLengthMsb)
            } else if len < 65536 {
                Header::Bad(ConnectionError::NonMinimalLength)
            } else if len > max_payload {
                Header::Bad(ConnectionError::PayloadTooLarge(len as u64))
            } else {
                sized_frame(b, 10, len)
            }
        }
    }
}

/// Look at the frame that starts with `b`.
pub fn decode_header(b: &[u8], max_payload: usize) -> (r: Header)
    requires
        max_payload <= isize::MAX,
    ensures
        r == parse_header(b@, max_payload),
{
    if b.len() < 2 {
        return Header::Need(2);
    }
    let byte0: u8 = b[0];
    let byte1: u8 = b[1];
    let rsv: u8 = byte0 & RESERVED_MASK;
    if rsv != 0 {
        return Header::Bad(ConnectionError::BadReservedBits(rsv));
    }
    if byte1 & MASK_BIT != 0 {
        return Header::Bad(ConnectionError::MaskedServerFrame);
    }
    let len_byte: u8 = byte1 & LEN_MASK;
    let mut header_len: usize = 2;
    let mut payload_len: usize = len_byte as usize;
    if len_byte == 126 {
        if b.len() < 4 {
            return Header::Need(4);
        }
        let len: u64 = read_be(&b[2..4]);
        if len < 126 {
            return Header::Bad(ConnectionError::NonMinimalLength);
        }
        if len > max_payload as u64 {
            return Header::Bad(ConnectionError::PayloadTooLarge(len));
        }
        header_len = 4;
        payload_len = len as usize;
    } else if len_byte > 126 {
        if b.len() < 10 {
            return Header::Need(10);
        }
        let len: u64 = read_be(&b[2..10]);
        if len >= 0x8000_0000_0000_0000 {
            return Header::Bad(ConnectionError::PayloadLengthMsb);
        }
        if len < 65536 {
            return Header::Bad(ConnectionError::NonMinimalLength);
        }
        if len > max_payload as u64 {
            return Header::Bad(ConnectionError::PayloadTooLarge(len));
        }
        header_len = 10;
        payload_len = len as usize;
    }
    let fin: bool = byte0 & FIN != 0;
    let opcode: u8 = byte0 & OPCODE_MASK;
    if opcode >= OP_CLOSE {
        if !fin {
            return Header::Bad(ConnectionError::FragmentedControl);
        }
        if payload_len > 125 {
            return Header::Bad(ConnectionError::ControlPayloadTooLarge(payload_len));
        }
    }
    let frame_size: usize = header_len + payload_len;
    if b.len() < frame_size {
        Header::Need(frame_size)
    } else {
        Header::Frame { fin, opcode, header_len, payload_len }
    }
}

/// `data` with each byte XORed with the mask byte at its place, the mask
/// repeating every four bytes.
pub open spec fn masked(data: Seq<u8>, mask: Seq<u8>) -> Seq<u8> {
    Seq::new(data.len(), |i: int| data[i] ^ mask[i % 4])
}

/// The length field of a frame header, in its shortest form.
pub open spec fn length_field(len: nat, mask_bit: u8) -> Seq<u8> {
    if len < 126 {
        seq![mask_bit | (len as u8)]
    } else if len < 65536 {
        seq![mask_bit | 126] + be_bytes(len, 2)
    } else {
        seq![mask_bit | 127] + be_bytes(len, 8)
    }
}

/// A whole frame as a client sends it: final, with a masked payload.
pub open spec fn client_frame(opcode: u8, payload: Seq<u8>, mask: Seq<u8>) -> Seq<u8> {
    seq![FIN | opcode] + length_field(payload.len(), MASK_BIT) + mask + masked(payload, mask)
}

/// A frame as a server sends it: the payload in the clear.
pub open spec fn server_frame(fin: bool, opcode: u8, payload: Seq<u8>) -> Seq<u8> {
    let first = if fin {
        FIN | opcode
    } else {
        opcode
    };
    seq![first] + length_field(payload.len(), 0) + payload
}

/// XOR `buf` with `mask` repeated.
pub fn apply_mask(buf: &mut [u8], mask: [u8; 4])
    ensures
        final(buf)@ == masked(old(buf)@, mask@),
{
    let n: usize = buf.len();
    let mut i: usize = 0;
    while i < n
        invariant
            i <= n,
            n == buf@.len(),
            n == old(buf)@.len(),
            forall|k: int| 0 <= k < i ==> buf@[k] == old(buf)@[k] ^ mask@[k % 4],
            forall|k: int| i <= k < n ==> buf@[k] == old(buf)@[k],
        decreases n - i,
    {
        buf[i] = buf[i] ^ mask[i % 4];
        i = i + 1;
    }
    assert(buf@ =~= masked(old(buf)@, mask@));
}

/// Append a frame with the given mask to the send buffer.
pub fn build_frame_with_mask(send: &mut SendBuf, mask: [u8; 4], opcode: u8, payload: &[u8])
    requires
        old(send).wf(),
    ensures
        final(send).wf(),
        final(send).unsent_bytes() == old(send).unsent_bytes() + client_frame(
            opcode,
            payload@,
            mask@,
        ),
{
    let len: usize = payload.len();
    send.reserve(len.saturating_add(2 + 8 + 4));
    send.push_byte(FIN | opcode);
    if len < 126 {
        send.push_byte(MASK_BIT | len as u8);
    } else if len < 65536 {
        send.push_byte(MASK_BIT | 126);
        send.push(to_be(len as u64, 2).as_slice());
    } else {
        send.push_byte(MASK_BIT | 127);
        send.push(to_be(len as u64, 8).as_slice());
    }
    send.push(&mask);
    send.push(payload);
    let ghost before = send.unsent_bytes();
    let last = send.last_mut(len);
    apply_mask(last, mask);
    proof {
        assert(before.skip(before.len() - len) =~= payload@);
        assert(send.unsent_bytes() =~= old(send).unsent_bytes() + client_frame(
            opcode,
            payload@,
            mask@,
        ));
    }
}

/// `after` is `before` with one more frame.  Its mask is the number that was
/// drawn from `rng`, as it is in memory.
pub open spec fn queued<R: Rng>(
    before: Seq<u8>,
    after: Seq<u8>,
    opcode: u8,
    payload: Seq<u8>,
    rng: &R,
    rng_after: &R,
) -> bool {
    exists|key: u32, mask: Seq<u8>|
        drew(rng, key, rng_after) && #[trigger] bytes_in_memory(key, mask) && after == before
            + client_frame(opcode, payload, mask)
}

/// Append a frame, masked with a key drawn from `rng`, to the send buffer.
pub fn build_frame<R: Rng>(send: &mut SendBuf, rng: &mut R, opcode: u8, payload: &[u8])
    requires
        old(send).wf(),
    ensures
        final(send).wf(),
        queued(
            old(send).unsent_bytes(),
            final(send).unsent_bytes(),
            opcode,
            payload@,
            old(rng),
            final(rng),
        ),
{
    let key: u32 = rng.next_u32();
    assert(drew(old(rng), key, rng));
    let mask = native_bytes(key);
    build_frame_with_mask(send, mask, opcode, payload);
}

/// Close codes that a client may send.
pub open spec fn sendable_close_code(code: u16) -> bool {
    1000 <= code <= 1003 || 1007 <= code <= 1014 || 3000 <= code <= 4999
}

pub fn validate_send_close_code(code: u16) -> (r: Result<(), CallerError>)
    ensures
        r == (if sendable_close_code(code) {
            Ok::<(), CallerError>(())
        } else {
            Err(CallerError::InvalidCloseCode(code))
        }),
{
    if (1000 <= code && code <= 1003) || (1007 <= code && code <= 1014) || (3000 <= code && code
        <= 4999) {
        Ok(())
    } else {
        Err(CallerError::InvalidCloseCode(code))
    }
}

/// Close codes that a server may send.
pub open spec fn receivable_close_code(code: u16) -> bool {
    1000 <= code <= 4999 && code != 1005 && code != 1006 && code != 1015
}

pub fn validate_recv_close_code(code: u16) -> (r: Result<(), ConnectionError>)
    ensures
        r == (if receivable_close_code(code) {
            Ok::<(), ConnectionError>(())
        } else {
            Err(ConnectionError::InvalidCloseCode(code))
        }),
{
    if code == 1005 || code == 1006 || code == 1015 || code < 1000 || code > 4999 {
        Err(ConnectionError::InvalidCloseCode(code))
    } else {
        Ok(())
    }
}

} // verus!
