//! What frames are on the wire, byte by byte, and what is refused.
use vstd::prelude::*;
use vstd::utf8::{encode_utf8, encode_utf8_decode_utf8, encode_utf8_valid_utf8, valid_utf8};

use crate::bytes::{be_bytes, be_value, le_value, lemma_be_bytes_len};
use crate::ext::{bytes_in_memory, utf8_error_of};
use crate::ws::error::{CallerError, ConnectionError, Error};
use crate::ws::frame::{
    client_frame, length_field, parse_header, server_frame, validate_recv_close_code,
    validate_send_close_code, Header,
};
use crate::ws::frame_laws::law_server_frame_is_read_back;
use crate::ws::proto::{
    close_payload, flood_after_frame, frames_lead_to, run_frames, Buffers, CloseState,
    ReadModel, ReadOutcome, ReadProgress, ReadTask, Session, Stop,
};
use crate::ws::rng::{drew, Rng};
use crate::ws::websocket::{read_comes_to, Message, ReadStatus};

verus! {

/// The two bytes of a number, the higher one first.
pub proof fn law_two_bytes(n: u16)
    ensures
        be_bytes(n as nat, 2) == seq![(n / 256) as u8, (n % 256) as u8],
        be_value(seq![(n / 256) as u8, (n % 256) as u8]) == n,
{
    reveal_with_fuel(be_bytes, 3);
    let b = seq![(n / 256) as u8, (n % 256) as u8];
    assert(be_bytes(n as nat, 2) =~= b);
    lemma_two_byte_value(b);
}

proof fn lemma_two_byte_value(b: Seq<u8>)
    requires
        b.len() == 2,
    ensures
        be_value(b) == b[0] as nat * 256 + b[1] as nat,
{
    let one = b.drop_last();
    assert(one.drop_last() =~= Seq::<u8>::empty());
    assert(be_value(one.drop_last()) == 0);
    assert(be_value(one) == one.last() as nat);
}

/// A number of four bytes, the lowest first.
pub proof fn law_low_byte_first(b: Seq<u8>)
    requires
        b.len() == 4,
    ensures
        le_value(b) == b[0] as nat + 0x100 * b[1] as nat + 0x1_0000 * b[2] as nat + 0x100_0000
            * b[3] as nat,
{
    reveal_with_fuel(le_value, 5);
    let b1 = b.skip(1);
    let b2 = b1.skip(1);
    let b3 = b2.skip(1);
    assert(b1[0] == b[1]);
    assert(b2[0] == b[2]);
    assert(b3[0] == b[3]);
    assert(b3.skip(1) =~= Seq::<u8>::empty());
}

/// Close codes that may be received are those from 1000 to 4999, but for 1005,
/// 1006 and 1015: the registered and private ones from 3000 on are among them.
pub proof fn law_received_close_codes(code: u16, r: Result<(), ConnectionError>)
    requires
        call_ensures(validate_recv_close_code, (code,), r),
    ensures
        3000 <= code <= 4999 ==> r == Ok::<(), ConnectionError>(()),
        1000 <= code <= 4999 && code != 1005 && code != 1006 && code != 1015 ==> r == Ok::<
            (),
            ConnectionError,
        >(()),
        code < 1000 || code >= 5000 || code == 1005 || code == 1006 || code == 1015 ==> r == Err::<
            (),
            ConnectionError,
        >(ConnectionError::InvalidCloseCode(code)),
{
}

/// Close codes that may be sent are 1000 to 1003, 1007 to 1014, and 3000 to
/// 4999.
pub proof fn law_sent_close_codes(code: u16, r: Result<(), CallerError>)
    requires
        call_ensures(validate_send_close_code, (code,), r),
    ensures
        1000 <= code <= 1003 || 1007 <= code <= 1014 || 3000 <= code <= 4999 ==> r == Ok::<
            (),
            CallerError,
        >(()),
        code < 1000 || 1004 <= code <= 1006 || 1015 <= code <= 2999 || code >= 5000 ==> r == Err::<
            (),
            CallerError,
        >(CallerError::InvalidCloseCode(code)),
{
}

/// A close frame says its code, in two bytes, and its reason: it is understood
/// for every code that a server may send.  Other codes, a reason that is not
/// UTF-8, and half a code are refused; an empty payload gives neither code nor
/// reason.
pub proof fn law_close_payload(code: u16, reason: Seq<u8>)
    ensures
        ({
            let payload = seq![(code / 256) as u8, (code % 256) as u8] + reason;
            let known = 1000 <= code <= 4999 && code != 1005 && code != 1006 && code != 1015;
            &&& known && valid_utf8(reason) ==> close_payload(payload) == Ok::<
                (Option<u16>, Seq<u8>),
                ConnectionError,
            >((Some(code), reason))
            &&& !known ==> close_payload(payload) == Err::<
                (Option<u16>, Seq<u8>),
                ConnectionError,
            >(ConnectionError::InvalidCloseCode(code))
            &&& known && !valid_utf8(reason) ==> close_payload(payload) == Err::<
                (Option<u16>, Seq<u8>),
                ConnectionError,
            >(ConnectionError::InvalidUtf8(utf8_error_of(reason)))
        }),
        close_payload(Seq::empty()) == Ok::<(Option<u16>, Seq<u8>), ConnectionError>(
            (None, Seq::empty()),
        ),
        forall|b: u8|
            #[trigger] close_payload(seq![b]) == Err::<(Option<u16>, Seq<u8>), ConnectionError>(
                ConnectionError::BadClosePayload,
            ),
{
    let two = seq![(code / 256) as u8, (code % 256) as u8];
    let payload = two + reason;
    law_two_bytes(code);
    assert(payload.take(2) =~= two);
    assert(payload.skip(2) =~= reason);
}

/// A frame from the server: the first byte holds the opcode and, if the frame is
/// final, the highest bit; then come the length and the payload.
pub proof fn law_server_frame_bytes(fin: bool, opcode: u8, payload: Seq<u8>)
    requires
        opcode < 16,
        payload.len() < 65536,
    ensures
        ({
            let n = payload.len();
            let first = if fin {
                (opcode + 128) as u8
            } else {
                opcode
            };
            server_frame(fin, opcode, payload) == if n < 126 {
                seq![first, n as u8] + payload
            } else {
                seq![first, 126u8, (n / 256) as u8, (n % 256) as u8] + payload
            }
        }),
{
    lemma_first_byte(opcode);
    lemma_length_bytes(payload.len(), 0);
    let n = payload.len();
    assert(n < 126 ==> 0u8 | (n as u8) == n as u8) by {
        let x = n as u8;
        assert(0u8 | x == x) by (bit_vector);
    }
    assert(0u8 | 126u8 == 126u8) by (bit_vector);
    let first = if fin {
        (opcode + 128) as u8
    } else {
        opcode
    };
    if n < 126 {
        assert(server_frame(fin, opcode, payload) =~= seq![first, n as u8] + payload);
    } else {
        assert(server_frame(fin, opcode, payload) =~= seq![
            first,
            126u8,
            (n / 256) as u8,
            (n % 256) as u8,
        ] + payload);
    }
}

proof fn lemma_first_byte(opcode: u8)
    requires
        opcode < 16,
    ensures
        0x80u8 | opcode == opcode + 128,
{
    assert(0x80u8 | opcode == opcode + 128) by (bit_vector)
        requires
            opcode < 16,
    ;
}

proof fn lemma_length_bytes(n: nat, bit: u8)
    requires
        n < 65536,
    ensures
        n >= 126 ==> length_field(n, bit) == seq![bit | 126, (n / 256) as u8, (n % 256) as u8],
        n < 126 ==> length_field(n, bit) == seq![bit | (n as u8)],
{
    if n >= 126 {
        law_two_bytes(n as u16);
        assert(length_field(n, bit) =~= seq![bit | 126, (n / 256) as u8, (n % 256) as u8]);
    }
}

/// A frame to the server: final, with its length marked as masked, then the
/// mask, then the payload with each byte XORed with the mask's.
pub proof fn law_client_frame_bytes(opcode: u8, payload: Seq<u8>, mask: Seq<u8>)
    requires
        opcode < 16,
        mask.len() == 4,
    ensures
        ({
            let n = payload.len();
            let frame = client_frame(opcode, payload, mask);
            let head = if n < 126 {
                2int
            } else if n < 65536 {
                4int
            } else {
                10int
            };
            &&& frame.len() == head + 4 + n
            &&& frame[0] == opcode + 128
            &&& n < 126 ==> frame[1] == n + 128
            &&& 126 <= n < 65536 ==> frame[1] == 254 && frame[2] as nat * 256 + frame[3] as nat == n
            &&& n >= 65536 ==> frame[1] == 255
            &&& frame.subrange(head, head + 4) == mask
            &&& forall|i: int|
                0 <= i < n ==> #[trigger] frame[head + 4 + i] == payload[i] ^ mask[i % 4]
        }),
{
    let n = payload.len();
    let frame = client_frame(opcode, payload, mask);
    lemma_first_byte(opcode);
    lemma_be_bytes_len(n, 8);
    if n < 126 {
        let x = n as u8;
        assert(0x80u8 | x == x + 128) by (bit_vector)
            requires
                x < 126,
        ;
        assert(frame.subrange(2, 6) =~= mask);
    } else if n < 65536 {
        lemma_length_bytes(n, 0x80);
        assert(0x80u8 | 126u8 == 254u8) by (bit_vector);
        assert(frame.subrange(4, 8) =~= mask);
    } else {
        assert(0x80u8 | 127u8 == 255u8) by (bit_vector);
        assert(frame.subrange(10, 14) =~= mask);
    }
}

/// What a server must not send is refused: reserved bits, a mask, a control
/// frame in pieces or over 125 bytes, a length in more bytes than it needs, and
/// a payload beyond the limit.
pub proof fn law_bad_frames_are_refused(b: Seq<u8>, max_payload: usize)
    requires
        b.len() >= 4,
        max_payload >= 125,
    ensures
        ({
            let h = parse_header(b, max_payload);
            let reserved = b[0] & 0x70;
            let op = b[0] & 0x0F;
            let fin = b[0] >= 128;
            let two = b[2] as nat * 256 + b[3] as nat;
            &&& reserved != 0 ==> h == Header::Bad(ConnectionError::BadReservedBits(reserved))
            &&& reserved == 0 && b[1] >= 128 ==> h == Header::Bad(ConnectionError::MaskedServerFrame)
            &&& reserved == 0 && b[1] <= 125 && op >= 8 && !fin ==> h == Header::Bad(
                ConnectionError::FragmentedControl,
            )
            &&& reserved == 0 && b[1] == 126 && two < 126 ==> h == Header::Bad(
                ConnectionError::NonMinimalLength,
            )
            &&& reserved == 0 && b[1] == 126 && two >= 126 && two > max_payload ==> h == Header::Bad(
                ConnectionError::PayloadTooLarge(two as u64),
            )
            &&& reserved == 0 && b[1] == 126 && 126 <= two <= max_payload && op >= 8 && fin ==> h
                == Header::Bad(ConnectionError::ControlPayloadTooLarge(two as usize))
            &&& reserved == 0 && b[1] <= 125 && (op < 8 || fin) ==> h == if b.len() < 2 + b[1] {
                Header::Need((2 + b[1]) as usize)
            } else {
                Header::Frame { fin, opcode: op, header_len: 2, payload_len: b[1] as usize }
            }
        }),
{
    let x = b[0];
    let y = b[1];
    assert((x & 0x80u8 != 0) == (x >= 128)) by (bit_vector);
    assert((y & 0x80u8 != 0) == (y >= 128)) by (bit_vector);
    assert(y < 128 ==> y & 0x7Fu8 == y) by (bit_vector);
    lemma_two_byte_value(b.subrange(2, 4));
}

/// A number of eight bytes, the highest first.
pub proof fn law_eight_bytes(b: Seq<u8>)
    requires
        b.len() == 8,
    ensures
        be_value(b) == 256 * (256 * (256 * (256 * (256 * (256 * (256 * b[0] as nat + b[1] as nat)
            + b[2] as nat) + b[3] as nat) + b[4] as nat) + b[5] as nat) + b[6] as nat)
            + b[7] as nat,
{
    reveal_with_fuel(be_value, 9);
    let b7 = b.drop_last();
    let b6 = b7.drop_last();
    let b5 = b6.drop_last();
    let b4 = b5.drop_last();
    let b3 = b4.drop_last();
    let b2 = b3.drop_last();
    let b1 = b2.drop_last();
    assert(b1.drop_last() =~= Seq::<u8>::empty());
    assert(b1.last() == b[0] && b2.last() == b[1] && b3.last() == b[2] && b4.last() == b[3]
        && b5.last() == b[4] && b6.last() == b[5] && b7.last() == b[6]);
}

/// A length of eight bytes is for payloads of 65536 bytes and more, within the
/// limit, and without the highest bit.
pub proof fn law_long_frames(b: Seq<u8>, max_payload: usize)
    requires
        b.len() >= 10,
        b[0] & 0x70 == 0,
        b[1] == 127,
        b[0] & 0x0F < 8,
    ensures
        ({
            let h = parse_header(b, max_payload);
            let len = be_value(b.subrange(2, 10));
            &&& b[2] >= 128 ==> h == Header::Bad(ConnectionError::PayloadLengthMsb)
            &&& len < 65536 ==> h == Header::Bad(ConnectionError::NonMinimalLength)
            &&& len >= 65536 && b[2] < 128 && len > max_payload ==> h == Header::Bad(
                ConnectionError::PayloadTooLarge(len as u64),
            )
            &&& 65536 <= len <= max_payload && b[2] < 128 && b.len() >= 10 + len ==> h
                == (Header::Frame {
                fin: b[0] >= 128,
                opcode: b[0] & 0x0F,
                header_len: 10,
                payload_len: len as usize,
            })
        }),
{
    let x = b[0];
    let y = b[1];
    assert((x & 0x80u8 != 0) == (x >= 128)) by (bit_vector);
    assert(127u8 & 0x80u8 == 0 && 127u8 & 0x7Fu8 == 127u8) by (bit_vector);
    law_eight_bytes(b.subrange(2, 10));
}

/// A close frame with a code and a reason is handed to the caller as it came,
/// and, while the connection is open, its code is sent back.
pub proof fn law_close_is_delivered<R: Rng>(
    m: ReadModel,
    unsent: Seq<u8>,
    s: Session,
    rng: R,
    b1: Buffers,
    s1: Session,
    rng1: R,
    r: ReadProgress,
    code: u16,
    reason: Seq<char>,
    rest: Seq<u8>,
)
    requires
        s.wf(),
        1000 <= code <= 4999,
        code != 1005 && code != 1006 && code != 1015,
        encode_utf8(reason).len() <= 123,
        m.pending == seq![
            0x88u8,
            (encode_utf8(reason).len() + 2) as u8,
            (code / 256) as u8,
            (code % 256) as u8,
        ] + encode_utf8(reason) + rest,
        flood_after_frame(m.flood_score, m.fresh) <= s.max_flood_score,
        frames_lead_to(m, unsent, s, rng, b1, s1, rng1, r),
    ensures
        s1.close_state == CloseState::Closed,
        b1.read.pending_bytes() == rest,
        s.close_state == CloseState::Open ==> {
            &&& r matches ReadProgress::Pending(ReadTask::Closing { code: c, start, len })
            &&& c == Some(code)
            &&& b1.message_bytes(false, start, len) == encode_utf8(reason)
            &&& exists|key: u32, mask: Seq<u8>|
                drew(&rng, key, &rng1) && #[trigger] bytes_in_memory(key, mask)
                    && b1.send.unsent_bytes() == unsent + client_frame(
                    8,
                    seq![(code / 256) as u8, (code % 256) as u8],
                    mask,
                )
        },
        s.close_state != CloseState::Open ==> {
            &&& r matches ReadProgress::Done(ReadOutcome::Close { code: c, start, len })
            &&& c == Some(code)
            &&& b1.message_bytes(false, start, len) == encode_utf8(reason)
            &&& b1.send.unsent_bytes() == unsent
        },
{
    let two = seq![(code / 256) as u8, (code % 256) as u8];
    let payload = two + encode_utf8(reason);
    encode_utf8_valid_utf8(reason);
    law_close_payload(code, encode_utf8(reason));
    lemma_control_frame(m, 8, payload, rest, s);
    assert(m.pending =~= seq![0x88u8, payload.len() as u8] + payload + rest);
    assert(payload.take(2) =~= two);
}

proof fn lemma_control_frame(m: ReadModel, opcode: u8, payload: Seq<u8>, rest: Seq<u8>, s: Session)
    requires
        s.wf(),
        8 <= opcode < 16,
        payload.len() <= 125,
        m.pending =~= seq![(opcode + 128) as u8, payload.len() as u8] + payload + rest,
        flood_after_frame(m.flood_score, m.fresh) <= s.max_flood_score,
    ensures
        opcode == 8 ==> run_frames(m, s.max_payload, s.max_flood_score).1 == Stop::Close(payload),
        opcode == 9 ==> run_frames(m, s.max_payload, s.max_flood_score).1 == Stop::Ping(payload),
        opcode == 8 || opcode == 9 ==> run_frames(m, s.max_payload, s.max_flood_score).0.pending
            == rest && run_frames(m, s.max_payload, s.max_flood_score).0.budget == m.budget,
{
    let frame = server_frame(true, opcode, payload);
    law_server_frame_bytes(true, opcode, payload);
    assert(m.pending =~= frame + rest);
    law_server_frame_is_read_back(true, opcode, payload, rest, s.max_payload);
    assert(m.pending.skip(frame.len() as int) =~= rest);
}

/// A ping is answered with a pong that carries the same payload, if there is
/// room for it.
pub proof fn law_ping_is_answered<R: Rng>(
    m: ReadModel,
    unsent: Seq<u8>,
    s: Session,
    rng: R,
    b1: Buffers,
    s1: Session,
    rng1: R,
    r: ReadProgress,
    payload: Seq<u8>,
    rest: Seq<u8>,
)
    requires
        s.wf(),
        payload.len() <= 125,
        m.pending == seq![0x89u8, payload.len() as u8] + payload + rest,
        flood_after_frame(m.flood_score, m.fresh) <= s.max_flood_score,
        frames_lead_to(m, unsent, s, rng, b1, s1, rng1, r),
    ensures
        r matches ReadProgress::Pending(ReadTask::Ponging { budget }) && budget == m.budget,
        b1.read.pending_bytes() == rest,
        s1.close_state == s.close_state,
        unsent.len() < s.max_buf_size ==> exists|key: u32, mask: Seq<u8>|
            drew(&rng, key, &rng1) && #[trigger] bytes_in_memory(key, mask)
                && b1.send.unsent_bytes() == unsent + client_frame(10, payload, mask),
        unsent.len() >= s.max_buf_size ==> b1.send.unsent_bytes() == unsent,
{
    lemma_control_frame(m, 9, payload, rest, s);
}

/// A message is handed to the caller as what it is: text if it is text, bytes
/// if it is binary, a code and a reason if it is a close.  Text that is not
/// UTF-8 fails the connection.
pub proof fn law_message_is_handed_over(
    b: Buffers,
    s: Session,
    opcode: u8,
    fragmented: bool,
    start: usize,
    len: usize,
    code: Option<u16>,
    now: u64,
    r: Result<ReadStatus<'_>, Error>,
    s1: Session,
    closed: Result<ReadStatus<'_>, Error>,
    s2: Session,
    text: Seq<char>,
)
    requires
        opcode == 1 || opcode == 2,
        read_comes_to(
            b,
            s,
            ReadOutcome::Message { opcode, fragmented, start, len },
            now,
            r,
            s1,
        ),
        read_comes_to(b, s, ReadOutcome::Close { code, start, len }, now, closed, s2),
    ensures
        opcode == 2 ==> {
            &&& r matches Ok(ReadStatus::Message(Message::Binary(data)))
            &&& data@ == b.message_bytes(fragmented, start, len)
            &&& s1.last_activity == Some(now)
            &&& s1.ping_deadline is None
        },
        opcode == 1 && b.message_bytes(fragmented, start, len) == encode_utf8(text) ==> {
            &&& r matches Ok(ReadStatus::Message(Message::Text(t)))
            &&& t@ == text
            &&& s1.last_activity == Some(now)
            &&& s1.ping_deadline is None
        },
        opcode == 1 && !valid_utf8(b.message_bytes(fragmented, start, len)) ==> {
            &&& r matches Err(Error::Reconnect(ConnectionError::InvalidUtf8(_)))
            &&& s1.close_state == CloseState::Closed
        },
        b.message_bytes(false, start, len) == encode_utf8(text) ==> {
            &&& closed matches Ok(ReadStatus::Message(Message::Close(c, reason)))
            &&& c == code
            &&& reason@ == text
        },
{
    encode_utf8_valid_utf8(text);
    encode_utf8_decode_utf8(text);
    if let Ok(ReadStatus::Message(Message::Text(t))) = r {
        encode_utf8_decode_utf8(t@);
    }
    if let Ok(ReadStatus::Message(Message::Close(_, reason))) = closed {
        encode_utf8_decode_utf8(reason@);
    }
}

} // verus!
