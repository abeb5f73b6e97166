//! Calls into `std` that have no specification in vstd.
use vstd::prelude::*;
use vstd::utf8::*;

verus! {

/// Capacity of a vector (`Vec::capacity`).  Only that it is no smaller than
/// the length is claimed: what the allocator gave is left open.
#[verifier::external_body]
pub(crate) fn capacity_of<T>(v: &Vec<T>) -> (n: usize)
    ensures
        n >= v@.len(),
{
    v.capacity()
}

/// Give back spare capacity down to `min` (`Vec::shrink_to`).  The elements
/// stay as they are.
#[verifier::external_body]
pub(crate) fn shrink_capacity<T>(v: &mut Vec<T>, min: usize)
    ensures
        final(v)@ == old(v)@,
{
    v.shrink_to(min)
}

/// The four bytes of `n`, the lowest first.
pub open spec fn low_first(n: u32) -> Seq<u8> {
    seq![n as u8, (n >> 8) as u8, (n >> 16) as u8, (n >> 24) as u8]
}

/// `bytes` are those of `n` in memory: the lowest or the highest first.
pub open spec fn bytes_in_memory(n: u32, bytes: Seq<u8>) -> bool {
    bytes == low_first(n) || bytes == low_first(n).reverse()
}

/// The bytes of a number as they are in memory (`u32::to_ne_bytes`).  Claimed
/// is that they are in one of the two orders; which one is up to the machine.
#[verifier::external_body]
pub(crate) fn native_bytes(n: u32) -> (r: [u8; 4])
    ensures
        bytes_in_memory(n, r@),
{
    n.to_ne_bytes()
}

/// Where a byte string stops being UTF-8.
#[derive(Debug, Clone, Copy, PartialEq, Eq, Structural)]
pub struct Utf8Error {
    /// Length of the longest prefix that is valid UTF-8.
    pub valid_up_to: usize,
    /// Length of the sequence after it that is not UTF-8, or `None` if that
    /// one is cut off at the end.
    pub error_len: Option<usize>,
}

/// The length of the first sequence in `bytes` that is not UTF-8, as
/// `std::str::Utf8Error::error_len` has it.
pub uninterp spec fn utf8_error_len(bytes: Seq<u8>) -> Option<usize>;

/// `n` is the length of the longest prefix of `bytes` that is valid UTF-8.
pub open spec fn longest_valid_utf8_prefix(bytes: Seq<u8>, n: int) -> bool {
    &&& 0 <= n <= bytes.len()
    &&& valid_utf8(bytes.take(n))
    &&& forall|m: int| n < m <= bytes.len() ==> !valid_utf8(#[trigger] bytes.take(m))
}

/// The error that `bytes`, not being UTF-8, give rise to.
pub open spec fn utf8_error_of(bytes: Seq<u8>) -> Utf8Error {
    Utf8Error {
        valid_up_to: (choose|n: int| longest_valid_utf8_prefix(bytes, n)) as usize,
        error_len: utf8_error_len(bytes),
    }
}

/// Read bytes as a string (`std::str::from_utf8`): succeeds exactly on valid
/// UTF-8 and then holds the same bytes; otherwise it reports the longest valid
/// prefix, and the length of what follows.  That length is named; of it, only
/// that a sequence is cut off one to three bytes before the end is claimed.
#[verifier::external_body]
pub(crate) fn str_from_utf8<'a>(bytes: &'a [u8]) -> (r: Result<&'a str, Utf8Error>)
    ensures
        match r {
            Ok(s) => valid_utf8(bytes@) && encode_utf8(s@) == bytes@,
            Err(e) => {
                &&& !valid_utf8(bytes@)
                &&& longest_valid_utf8_prefix(bytes@, e.valid_up_to as int)
                &&& e.error_len == utf8_error_len(bytes@)
                &&& e.error_len is None ==> 1 <= bytes@.len() - e.valid_up_to <= 3
            },
        },
{
    match std::str::from_utf8(bytes) {
        Ok(s) => Ok(s),
        Err(e) => Err(Utf8Error { valid_up_to: e.valid_up_to(), error_len: e.error_len() }),
    }
}

/// Read bytes as a string, or say where they stop being UTF-8.
pub fn decode_text<'a>(bytes: &'a [u8]) -> (r: Result<&'a str, Utf8Error>)
    ensures
        match r {
            Ok(s) => valid_utf8(bytes@) && encode_utf8(s@) == bytes@ && s@ == decode_utf8(bytes@),
            Err(e) => !valid_utf8(bytes@) && e == utf8_error_of(bytes@),
        },
{
    match str_from_utf8(bytes) {
        Ok(s) => {
            proof {
                encode_utf8_decode_utf8(s@);
            }
            Ok(s)
        },
        Err(e) => {
            proof {
                let n = e.valid_up_to as int;
                let m = choose|n: int| longest_valid_utf8_prefix(bytes@, n);
                assert(longest_valid_utf8_prefix(bytes@, n));
                assert(longest_valid_utf8_prefix(bytes@, m));
                if n < m {
                    assert(!valid_utf8(bytes@.take(m)));
                } else if m < n {
                    assert(!valid_utf8(bytes@.take(n)));
                }
            }
            Err(e)
        },
    }
}

/// Whether a character beyond ASCII is whitespace, as `char::is_whitespace` has
/// it.
pub uninterp spec fn unicode_whitespace(c: char) -> bool;

/// ASCII whitespace: tab, line feed, vertical tab, form feed, carriage return,
/// space.
pub open spec fn ascii_whitespace(c: char) -> bool {
    c == ' ' || '\u{9}' <= c <= '\u{d}'
}

/// Whitespace: a character with the White_Space property.
pub open spec fn whitespace(c: char) -> bool {
    ascii_whitespace(c) || (c > '\u{7f}' && unicode_whitespace(c))
}

/// `char::is_whitespace` is a function of the character.  Which ASCII
/// characters have the White_Space property is claimed; of the others only
/// that it is a matter of the character.
pub assume_specification[ char::is_whitespace ](c: char) -> (r: bool)
    ensures
        r == (ascii_whitespace(c) || (c > '\u{7f}' && unicode_whitespace(c))),
;

/// `String::push` appends one character.
pub assume_specification[ String::push ](s: &mut String, c: char)
    ensures
        final(s)@ == old(s)@.push(c),
;

/// The lower-case form of an ASCII letter; other characters are themselves.
pub open spec fn ascii_lower_char(c: char) -> char {
    if 'A' <= c <= 'Z' {
        ((c as u32 + 32) as u8) as char
    } else {
        c
    }
}

/// The lower-case form of a string, as `str::to_lowercase` has it.
pub uninterp spec fn lowercase(s: Seq<char>) -> Seq<char>;

/// `str::to_lowercase` is a function of the string.  Of ASCII strings it is
/// claimed that letters are lowered one by one.
#[verifier::external_body]
pub(crate) fn to_lowercase(s: &str) -> (r: String)
    ensures
        r@ == lowercase(s@),
        is_ascii_chars(s@) ==> r@ == s@.map_values(|c: char| ascii_lower_char(c)),
{
    s.to_lowercase()
}

/// Whether a character beyond ASCII is alphanumeric, as
/// `char::is_alphanumeric` has it.
pub uninterp spec fn unicode_alphanumeric(c: char) -> bool;

/// ASCII letters and digits.
pub open spec fn ascii_alphanumeric(c: char) -> bool {
    'a' <= c <= 'z' || 'A' <= c <= 'Z' || '0' <= c <= '9'
}

/// Letters and numbers: a character with the Alphabetic property or in one of
/// the numeric categories.
pub open spec fn alphanumeric(c: char) -> bool {
    ascii_alphanumeric(c) || (c > '\u{7f}' && unicode_alphanumeric(c))
}

/// `char::is_alphanumeric` is a function of the character.  Which ASCII
/// characters are letters or digits is claimed; of the others only that it is
/// a matter of the character.
pub assume_specification[ char::is_alphanumeric ](c: char) -> (r: bool)
    ensures
        r == (ascii_alphanumeric(c) || (c > '\u{7f}' && unicode_alphanumeric(c))),
;

} // verus!
