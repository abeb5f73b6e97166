//! Numbers, strings and bytes.
use kamekichi::bytes::{
    contains_ignore_ascii_case, eq_ignore_ascii_case, find_subslice, read_be, read_le, to_be,
    trim_ascii,
};
use kamekichi::ext::decode_text;
use kamekichi::text::{
    chars_of, decimal_string, hex_number_in, number_in, parse_u64, str_eq, trim_range,
};
use kamekichi::ws::error::ConnectionError;
use kamekichi::ws::frame::{decode_header, Header};

#[test]
fn decimal_numbers_round_trip() {
    for n in [0, 9, 10, 41_250, 1 << 63, u64::MAX] {
        assert_eq!(decimal_string(n), n.to_string());
        assert_eq!(parse_u64(&decimal_string(n)), Some(n));
    }
}

#[test]
fn decimal_numbers_parse_like_std() {
    for s in [
        "", "+", "-", "-1", "+1", "++1", "007", "1 ", " 1", "1a", "18446744073709551615",
        "18446744073709551616", "99999999999999999999999", "\u{661}",
    ] {
        assert_eq!(parse_u64(s), s.parse::<u64>().ok(), "{s:?}");
        assert_eq!(
            number_in(&chars_of(s), 65535),
            s.parse::<u16>().ok().map(u64::from),
            "{s:?}"
        );
        assert_eq!(
            hex_number_in(&chars_of(s), u64::MAX),
            u64::from_str_radix(s, 16).ok(),
            "{s:?}"
        );
    }
    for s in ["ff", "FF", "+fF", "fffffffffffffffff", "g", "0x1"] {
        assert_eq!(hex_number_in(&chars_of(s), u64::MAX), u64::from_str_radix(s, 16).ok());
    }
}

#[test]
fn big_and_little_endian_round_trip() {
    assert_eq!(to_be(0x0102_0304, 8), 0x0102_0304u64.to_be_bytes());
    assert_eq!(read_be(&to_be(u64::MAX - 5, 8)), u64::MAX - 5);
    assert_eq!(to_be(65535, 2), [255, 255]);
    assert_eq!(read_be(&[]), 0);
    assert_eq!(read_le(&0x0102_0304_0506_0708u64.to_le_bytes()), 0x0102_0304_0506_0708);
}

#[test]
fn byte_strings() {
    assert_eq!(trim_ascii(b" \t\x0c a b\r\n"), b"a b");
    assert_eq!(trim_ascii(b"\x0ba"), b"\x0ba");
    assert_eq!(trim_ascii(b"  "), b"");
    assert!(eq_ignore_ascii_case(b"Content-LENGTH", b"content-length"));
    assert!(!eq_ignore_ascii_case(b"[", b"{"));
    assert!(contains_ignore_ascii_case(b"gzip, CHUNKED", b"chunked"));
    assert!(!contains_ignore_ascii_case(b"chunke", b"chunked"));
    assert_eq!(find_subslice(b"ab\r\r\n", b"\r\n", 0), Some(3));
    assert_eq!(find_subslice(b"\r\n\r\n", b"\r\n", 1), Some(2));
    assert_eq!(find_subslice(b"\r", b"\r\n", 0), None);
}

#[test]
fn strings() {
    assert!(str_eq("\u{e4}", "\u{e4}"));
    assert!(!str_eq("a", "b"));
    let chars = chars_of("\u{a0} \tx y\u{3000}\x0b");
    let (from, to) = trim_range(&chars, 0, chars.len());
    let trimmed: String = chars[from..to].iter().collect();
    assert_eq!(trimmed, "x y");
}

#[test]
fn utf8_errors_tell_the_valid_prefix() {
    assert_eq!(decode_text("h\u{e9}".as_bytes()).unwrap(), "h\u{e9}");
    for bytes in [&b"ab\xff"[..], b"\xe2\x82", b"x\xc0\x80", b"\xed\xa0\x80"] {
        let e = decode_text(bytes).unwrap_err();
        assert_eq!(e.valid_up_to, std::str::from_utf8(bytes).unwrap_err().valid_up_to());
    }
}

#[test]
fn frame_headers_ask_for_what_is_missing() {
    let need = |b: &[u8]| match decode_header(b, 1 << 20) {
        Header::Need(n) => n,
        other => panic!("expected Need, got {other:?}"),
    };
    assert_eq!(need(&[]), 2);
    assert_eq!(need(&[0x82]), 2);
    assert_eq!(need(&[0x82, 5]), 7);
    assert_eq!(need(&[0x82, 126]), 4);
    assert_eq!(need(&[0x82, 126, 1, 0]), 260);
    assert_eq!(need(&[0x82, 127, 0]), 10);
    assert!(matches!(
        decode_header(&[0x82, 2, 1, 2, 3], 1 << 20),
        Header::Frame { fin: true, opcode: 2, header_len: 2, payload_len: 2 }
    ));
    assert!(matches!(
        decode_header(&[0xb1, 0], 1 << 20),
        Header::Bad(ConnectionError::BadReservedBits(0x30))
    ));
    assert!(matches!(
        decode_header(&[0x88, 126, 0, 126], 1 << 20),
        Header::Bad(ConnectionError::ControlPayloadTooLarge(126))
    ));
}
