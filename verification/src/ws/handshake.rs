//! The opening handshake (RFC 6455 section 4): the upgrade request, and the
//! rules for accepting the server's response.
use vstd::prelude::*;
use vstd::slice::slice_subrange;
use vstd::utf8::{decode_utf8, encode_utf8, is_ascii_chars_encode_utf8, valid_utf8};

use crate::bytes::{
    bytes_eq, eq_ignore_ascii_case, eq_no_case, find, find_byte, has_prefix, lemma_find,
    push_bytes, push_str, starts_with, trim_ascii, trimmed,
};
use crate::digest::{base64_standard, encode_base64, sha1, sha1_digest};
use crate::ext::{decode_text, utf8_error_of};
use crate::text::{chars_of, find_char, range_eq, trim, trim_range};
use crate::ws::error::ConnectionError;
use crate::ws::proto::MAX_HEADER;

verus! {

/// What the server appends to the key before hashing it.
pub const WS_GUID: &'static str = "258EAFA5-E914-47DA-95CA-C5AB0DC85B11";

/// A header line.
pub open spec fn header_line(name: Seq<u8>, value: Seq<u8>) -> Seq<u8> {
    name + encode_utf8(": "@) + value + encode_utf8("\r\n"@)
}

/// The lines of some headers, in order.
pub open spec fn header_lines(headers: Seq<(&str, &str)>) -> Seq<u8>
    decreases headers.len(),
{
    if headers.len() == 0 {
        Seq::empty()
    } else {
        header_lines(headers.drop_last()) + header_line(
            encode_utf8(headers.last().0@),
            encode_utf8(headers.last().1@),
        )
    }
}

/// The request line.
pub open spec fn request_line(path: Seq<char>) -> Seq<u8> {
    encode_utf8("GET "@) + encode_utf8(path) + encode_utf8(" HTTP/1.1\r\n"@)
}

/// The headers that every upgrade request carries.
pub open spec fn fixed_headers(host: Seq<char>, key: Seq<u8>) -> Seq<u8> {
    encode_utf8("Host: "@) + encode_utf8(host) + encode_utf8(
        "\r\nUpgrade: websocket\r\nConnection: Upgrade\r\nSec-WebSocket-Key: "@,
    ) + key + encode_utf8("\r\nSec-WebSocket-Version: 13\r\n"@)
}

/// The header that offers subprotocols, if any are offered.
pub open spec fn offer_header(subprotocols: Option<Seq<char>>) -> Seq<u8> {
    match subprotocols {
        Some(list) => header_line(encode_utf8("Sec-WebSocket-Protocol"@), encode_utf8(list)),
        None => Seq::empty(),
    }
}

/// The upgrade request, byte for byte.
pub open spec fn upgrade_request(
    host: Seq<char>,
    path: Seq<char>,
    key: Seq<u8>,
    subprotocols: Option<Seq<char>>,
    headers: Seq<(&str, &str)>,
) -> Seq<u8> {
    request_line(path) + fixed_headers(host, key) + offer_header(subprotocols) + header_lines(
        headers,
    ) + encode_utf8("\r\n"@)
}

/// The text of an optional string.
pub open spec fn opt_text(s: Option<String>) -> Option<Seq<char>> {
    match s {
        Some(s) => Some(s@),
        None => None,
    }
}

/// Write a header line.
fn push_header(buf: &mut Vec<u8>, name: &str, value: &str)
    ensures
        final(buf)@ == old(buf)@ + header_line(encode_utf8(name@), encode_utf8(value@)),
{
    push_str(buf, name);
    push_str(buf, ": ");
    push_str(buf, value);
    push_str(buf, "\r\n");
    assert(buf@ =~= old(buf)@ + header_line(encode_utf8(name@), encode_utf8(value@)));
}

fn push_request_line(buf: &mut Vec<u8>, path: &str)
    ensures
        final(buf)@ == old(buf)@ + request_line(path@),
{
    push_str(buf, "GET ");
    push_str(buf, path);
    push_str(buf, " HTTP/1.1\r\n");
    assert(buf@ =~= old(buf)@ + request_line(path@));
}

fn push_fixed_headers(buf: &mut Vec<u8>, host: &str, key: &[u8])
    ensures
        final(buf)@ == old(buf)@ + fixed_headers(host@, key@),
{
    push_str(buf, "Host: ");
    push_str(buf, host);
    push_str(buf, "\r\nUpgrade: websocket\r\nConnection: Upgrade\r\nSec-WebSocket-Key: ");
    push_bytes(buf, key);
    push_str(buf, "\r\nSec-WebSocket-Version: 13\r\n");
    assert(buf@ =~= old(buf)@ + fixed_headers(host@, key@));
}

fn push_headers(buf: &mut Vec<u8>, headers: &[(&str, &str)])
    ensures
        final(buf)@ == old(buf)@ + header_lines(headers@),
{
    let ghost head = buf@;
    let mut i: usize = 0;
    assert(headers@.take(0) =~= Seq::<(&str, &str)>::empty());
    assert(buf@ =~= head + header_lines(headers@.take(0)));
    while i < headers.len()
        invariant
            i <= headers@.len(),
            buf@ == head + header_lines(headers@.take(i as int)),
        decreases headers@.len() - i,
    {
        push_header(buf, headers[i].0, headers[i].1);
        i = i + 1;
        proof {
            let done = headers@.take(i as int);
            assert(done.drop_last() =~= headers@.take(i - 1));
            assert(buf@ =~= head + header_lines(done));
        }
    }
    assert(headers@.take(i as int) =~= headers@);
}

/// Write the upgrade request.
pub fn write_request(
    buf: &mut Vec<u8>,
    host: &str,
    path: &str,
    key: &[u8],
    subprotocols: &Option<String>,
    headers: &[(&str, &str)],
)
    ensures
        final(buf)@ == old(buf)@ + upgrade_request(
            host@,
            path@,
            key@,
            opt_text(*subprotocols),
            headers@,
        ),
{
    push_request_line(buf, path);
    push_fixed_headers(buf, host, key);
    if let Some(list) = subprotocols {
        push_header(buf, "Sec-WebSocket-Protocol", list.as_str());
    }
    push_headers(buf, headers);
    push_str(buf, "\r\n");
    assert(buf@ =~= old(buf)@ + upgrade_request(
        host@,
        path@,
        key@,
        opt_text(*subprotocols),
        headers@,
    ));
}

/// An ASCII control character.
pub open spec fn is_control(b: u8) -> bool {
    b < 32 || b == 127
}

/// Holds neither control characters nor spaces.
pub open spec fn plain_word(s: Seq<u8>) -> bool {
    forall|i: int| 0 <= i < s.len() ==> !is_control(#[trigger] s[i]) && s[i] != 32
}

/// Holds no control characters.
pub open spec fn plain_value(s: Seq<u8>) -> bool {
    forall|i: int| 0 <= i < s.len() ==> !is_control(#[trigger] s[i])
}

/// Holds no colon.
pub open spec fn no_colon(s: Seq<u8>) -> bool {
    forall|i: int| 0 <= i < s.len() ==> #[trigger] s[i] != 58
}

/// What may go into a request: host and path are words, header names are words
/// without a colon, and header values hold no control characters.
pub open spec fn request_parts_ok(
    host: Seq<char>,
    path: Seq<char>,
    headers: Seq<(&str, &str)>,
) -> bool {
    &&& plain_word(encode_utf8(host))
    &&& plain_word(encode_utf8(path))
    &&& forall|i: int|
        0 <= i < headers.len() ==> #[trigger] header_ok(headers[i].0@, headers[i].1@)
}

pub open spec fn header_ok(name: Seq<char>, value: Seq<char>) -> bool {
    &&& plain_word(encode_utf8(name))
    &&& no_colon(encode_utf8(name))
    &&& plain_value(encode_utf8(value))
}

/// Whether a byte string holds no control characters, no spaces if
/// `space_too`, and no colons if `colon_too`.
fn is_plain(s: &[u8], space_too: bool, colon_too: bool) -> (r: bool)
    ensures
        r == (plain_value(s@) && (space_too ==> plain_word(s@)) && (colon_too ==> no_colon(s@))),
{
    let mut i: usize = 0;
    while i < s.len()
        invariant
            i <= s@.len(),
            forall|k: int|
                0 <= k < i ==> !is_control(#[trigger] s@[k]) && (space_too ==> s@[k] != 32) && (
                colon_too ==> s@[k] != 58),
        decreases s@.len() - i,
    {
        let b: u8 = s[i];
        assert(b == s@[i as int]);
        if b < 32 || b == 127 || (space_too && b == 32) || (colon_too && b == 58) {
            return false;
        }
        i = i + 1;
    }
    true
}

/// Whether host, path and headers may go into a request.
pub fn check_request_parts(host: &str, path: &str, headers: &[(&str, &str)]) -> (ok: bool)
    ensures
        ok == request_parts_ok(host@, path@, headers@),
{
    if !is_plain(host.as_bytes(), true, false) || !is_plain(path.as_bytes(), true, false) {
        return false;
    }
    let mut i: usize = 0;
    while i < headers.len()
        invariant
            i <= headers@.len(),
            forall|k: int|
                0 <= k < i ==> #[trigger] header_ok(headers@[k].0@, headers@[k].1@),
        decreases headers@.len() - i,
    {
        if !is_plain(headers[i].0.as_bytes(), true, true) || !is_plain(
            headers[i].1.as_bytes(),
            false,
            false,
        ) {
            assert(!header_ok(headers@[i as int].0@, headers@[i as int].1@));
            return false;
        }
        i = i + 1;
    }
    true
}

/// The newline at `nl` ends an empty line that follows another line.
pub open spec fn blank_line_at(data: Seq<u8>, nl: int) -> bool {
    &&& 0 <= nl < data.len()
    &&& data[nl] == 10
    &&& (nl >= 1 && data[nl - 1] == 10) || (nl >= 2 && data[nl - 1] == 13 && data[nl - 2] == 10)
}

/// The header block at the front of `data` is its first `end` bytes: it ends
/// with the first blank line.
pub open spec fn header_block_ends(data: Seq<u8>, end: int) -> bool {
    &&& blank_line_at(data, end - 1)
    &&& forall|k: int| k < end - 1 ==> !#[trigger] blank_line_at(data, k)
}

/// Where the newlines of `data` are, in order.
pub open spec fn newlines(data: Seq<u8>) -> Seq<int>
    decreases data.len(),
{
    if data.len() == 0 {
        Seq::empty()
    } else if data.last() == 10 {
        newlines(data.drop_last()).push(data.len() - 1)
    } else {
        newlines(data.drop_last())
    }
}

/// The positions in `ends` are those of the newlines of `data`.
pub open spec fn ends_are(ends: Seq<usize>, data: Seq<u8>) -> bool {
    &&& ends.len() == newlines(data).len()
    &&& forall|i: int| 0 <= i < ends.len() ==> #[trigger] ends[i] == newlines(data)[i]
}

proof fn lemma_newlines_skip_none(data: Seq<u8>, from: int, to: int)
    requires
        0 <= from <= to <= data.len(),
        forall|k: int| from <= k < to ==> data[k] != 10,
    ensures
        newlines(data.take(to)) == newlines(data.take(from)),
    decreases to - from,
{
    if from < to {
        lemma_newlines_skip_none(data, from, to - 1);
        assert(data.take(to).drop_last() =~= data.take(to - 1));
    }
}

/// Newlines are where they are said to be, in order.
pub proof fn lemma_newlines_bound(data: Seq<u8>)
    ensures
        forall|i: int|
            0 <= i < newlines(data).len() ==> 0 <= #[trigger] newlines(data)[i] < data.len()
                && data[newlines(data)[i]] == 10,
        forall|i: int, j: int|
            0 <= i < j < newlines(data).len() ==> newlines(data)[i] < newlines(data)[j],
    decreases data.len(),
{
    if data.len() > 0 {
        let rest = data.drop_last();
        lemma_newlines_bound(rest);
        let all = newlines(data);
        assert forall|i: int| 0 <= i < all.len() implies 0 <= #[trigger] all[i] < data.len()
            && data[all[i]] == 10 by {
            if i < newlines(rest).len() {
                assert(all[i] == newlines(rest)[i]);
                assert(rest[all[i]] == data[all[i]]);
            }
        }
        assert forall|i: int, j: int| 0 <= i < j < all.len() implies all[i] < all[j] by {
            assert(all[i] == newlines(rest)[i]);
            if j < newlines(rest).len() {
                assert(all[j] == newlines(rest)[j]);
            }
        }
    }
}

/// The part of the data in which the header block must end.
pub open spec fn header_window(data: Seq<u8>) -> Seq<u8> {
    if data.len() < MAX_HEADER {
        data
    } else {
        data.take(MAX_HEADER as int)
    }
}

/// What the search for the end of the headers says of the data so far: the
/// length of the header block, or that it is too large, or nothing yet.
pub open spec fn header_search(data: Seq<u8>) -> Result<Option<usize>, ConnectionError> {
    let seen = header_window(data);
    if exists|end: int| header_block_ends(seen, end) {
        Ok(Some((choose|end: int| header_block_ends(seen, end)) as usize))
    } else if data.len() >= MAX_HEADER {
        Err(ConnectionError::HeadersTooLarge)
    } else {
        Ok(None)
    }
}

pub proof fn lemma_header_search(data: Seq<u8>, end: int)
    requires
        header_block_ends(header_window(data), end),
    ensures
        header_search(data) == Ok::<Option<usize>, ConnectionError>(Some(end as usize)),
{
    let seen = header_window(data);
    let other = choose|end: int| header_block_ends(seen, end);
    assert(blank_line_at(seen, end - 1) && blank_line_at(seen, other - 1));
}

/// A found header block lies within the data.
pub proof fn lemma_header_search_bound(data: Seq<u8>)
    ensures
        header_search(data) matches Ok(Some(end)) ==> 0 < end <= data.len() && end <= MAX_HEADER,
{
    let seen = header_window(data);
    if exists|end: int| header_block_ends(seen, end) {
        let end = choose|end: int| header_block_ends(seen, end);
        assert(blank_line_at(seen, end - 1));
    }
}

/// The search has gone up to `scan`, the start of a line, and noted the line
/// ends before it.
pub open spec fn searched(data: Seq<u8>, scan: int, ends: Seq<usize>) -> bool {
    &&& 0 <= scan <= data.len()
    &&& scan <= MAX_HEADER
    &&& scan > 0 ==> data[scan - 1] == 10
    &&& ends_are(ends, data.take(scan))
    &&& forall|k: int| k < scan ==> !#[trigger] blank_line_at(data, k)
}

/// Look for the end of the headers, going on from `scan`.
pub fn search_headers(data: &[u8], scan: &mut usize, line_ends: &mut Vec<usize>) -> (r: Result<
    Option<usize>,
    ConnectionError,
>)
    requires
        searched(data@, *old(scan) as int, old(line_ends)@),
    ensures
        r == header_search(data@),
        match r {
            Ok(Some(end)) => ends_are(final(line_ends)@, data@.take(end as int)),
            _ => searched(data@, *final(scan) as int, final(line_ends)@),
        },
{
    let limit: usize = if data.len() < MAX_HEADER {
        data.len()
    } else {
        MAX_HEADER
    };
    let ghost seen = data@.take(limit as int);
    assert(data@.len() < MAX_HEADER ==> seen =~= data@);
    assert forall|k: int| k < limit implies blank_line_at(seen, k) == blank_line_at(data@, k) by {}
    let head = slice_subrange(data, 0, limit);
    assert(head@ =~= seen);
    let mut nl: usize = find_byte(head, 10, *scan);
    assert forall|k: int| *scan <= k < nl implies data@[k] != 10 by {
        assert(head@[k] == data@[k]);
    }
    while nl < limit
        invariant
            data@.len() < MAX_HEADER ==> limit == data@.len(),
            data@.len() >= MAX_HEADER ==> limit == MAX_HEADER,
            seen == data@.take(limit as int),
            head@ == seen,
            data@.len() < MAX_HEADER ==> seen == data@,
            forall|k: int| k < limit ==> #[trigger] blank_line_at(seen, k) == blank_line_at(data@, k),
            searched(data@, *scan as int, line_ends@),
            *scan <= nl <= limit <= MAX_HEADER,
            forall|k: int| *scan <= k < nl ==> data@[k] != 10,
            nl < limit ==> data@[nl as int] == 10,
        decreases limit - nl,
    {
        proof {
            lemma_newlines_skip_none(data@, *scan as int, nl as int);
            assert(data@.take(nl + 1).drop_last() =~= data@.take(nl as int));
        }
        line_ends.push(nl);
        assert(ends_are(line_ends@, data@.take(nl + 1)));
        assert forall|k: int| k < nl implies !#[trigger] blank_line_at(data@, k) by {}
        if *scan > 0 {
            let gap: usize = nl - (*scan - 1);
            if gap == 1 || (gap == 2 && data[nl - 1] == 13) {
                assert(blank_line_at(data@, nl as int));
                assert(header_block_ends(seen, nl + 1)) by {
                    assert(blank_line_at(seen, nl as int));
                }
                proof {
                    lemma_header_search(data@, nl + 1);
                }
                return Ok(Some(nl + 1));
            }
        }
        assert(!blank_line_at(data@, nl as int));
        *scan = nl + 1;
        nl = find_byte(head, 10, *scan);
        assert forall|k: int| *scan <= k < nl implies data@[k] != 10 by {
            assert(head@[k] == data@[k]);
        }
    }
    assert forall|k: int| !#[trigger] blank_line_at(seen, k) by {
        if *scan <= k < limit {
            assert(data@[k] != 10);
        } else if k < *scan {
            assert(!blank_line_at(data@, k));
        }
    }
    assert(!exists|end: int| header_block_ends(header_window(data@), end));
    if data.len() >= MAX_HEADER {
        return Err(ConnectionError::HeadersTooLarge);
    }
    Ok(None)
}

/// A line without a carriage return at its end.
pub open spec fn strip_cr(line: Seq<u8>) -> Seq<u8> {
    if line.len() > 0 && line.last() == 13 {
        line.drop_last()
    } else {
        line
    }
}

/// Where a line of a header block starts: after the previous line's end.
pub open spec fn line_start(head: Seq<u8>, i: int) -> int {
    if i == 0 {
        0
    } else {
        newlines(head)[i - 1] + 1
    }
}

/// The lines of a header block, without their line ends.
pub open spec fn lines(head: Seq<u8>) -> Seq<Seq<u8>> {
    Seq::new(
        newlines(head).len(),
        |i: int| strip_cr(head.subrange(line_start(head, i), newlines(head)[i])),
    )
}

/// The value of the header on a line, if it is the header of that name.
pub open spec fn field(line: Seq<u8>, name: Seq<u8>) -> Option<Seq<u8>> {
    let colon = find(line, 58u8);
    if colon < line.len() && eq_no_case(line.take(colon), name) {
        Some(trimmed(line.skip(colon + 1)))
    } else {
        None
    }
}

/// The first header of that name.
pub open spec fn first_field(lines: Seq<Seq<u8>>, name: Seq<u8>) -> Option<Seq<u8>>
    decreases lines.len(),
{
    if lines.len() == 0 {
        None
    } else {
        match first_field(lines.drop_last(), name) {
            Some(value) => Some(value),
            None => field(lines.last(), name),
        }
    }
}

/// A comma-separated list holds a token, whatever its case.
pub open spec fn has_token(list: Seq<u8>, token: Seq<u8>) -> bool
    decreases list.len(),
    via has_token_decreases
{
    let comma = find(list, 44u8);
    ||| eq_no_case(trimmed(list.take(comma)), token)
    ||| comma < list.len() && has_token(list.skip(comma + 1), token)
}

#[via_fn]
proof fn has_token_decreases(list: Seq<u8>, token: Seq<u8>) {
    lemma_find(list, 44u8);
}

/// Some header of that name lists the token.
pub open spec fn any_field_has(lines: Seq<Seq<u8>>, name: Seq<u8>, token: Seq<u8>) -> bool {
    exists|i: int|
        0 <= i < lines.len() && (#[trigger] field(lines[i], name) matches Some(value) && has_token(
            value,
            token,
        ))
}

/// The value of the header on a line, if it is the header of that name.
fn field_of<'a>(line: &'a [u8], name: &str) -> (r: Option<&'a [u8]>)
    ensures
        match r {
            Some(value) => field(line@, encode_utf8(name@)) == Some(value@),
            None => field(line@, encode_utf8(name@)) is None,
        },
{
    let colon: usize = find_byte(line, 58, 0);
    assert(line@.skip(0) =~= line@);
    if colon < line.len() {
        let key = slice_subrange(line, 0, colon);
        assert(key@ =~= line@.take(colon as int));
        if eq_ignore_ascii_case(key, name.as_bytes()) {
            let value = slice_subrange(line, colon + 1, line.len());
            assert(value@ =~= line@.skip(colon + 1));
            return Some(trim_ascii(value));
        }
    }
    None
}

/// Whether a comma-separated list holds a token, whatever its case.
fn list_has(list: &[u8], token: &str) -> (r: bool)
    ensures
        r == has_token(list@, encode_utf8(token@)),
{
    let mut from: usize = 0;
    assert(list@.skip(0) =~= list@);
    loop
        invariant
            from <= list@.len(),
            has_token(list@.skip(from as int), encode_utf8(token@)) == has_token(
                list@,
                encode_utf8(token@),
            ),
        decreases list@.len() - from,
    {
        let comma: usize = find_byte(list, 44, from);
        let item = slice_subrange(list, from, comma);
        assert(item@ =~= list@.skip(from as int).take(comma - from));
        if eq_ignore_ascii_case(trim_ascii(item), token.as_bytes()) {
            return true;
        }
        if comma >= list.len() {
            return false;
        }
        assert(list@.skip(from as int).skip(comma - from + 1) =~= list@.skip(comma + 1));
        from = comma + 1;
    }
}

/// The response begins with the right status.
pub open spec fn status_ok(head: Seq<u8>) -> bool {
    let status = encode_utf8("HTTP/1.1 101"@);
    &&& has_prefix(head, status)
    &&& head.len() > status.len()
    &&& head[status.len() as int] == 32 || head[status.len() as int] == 13
        || head[status.len() as int] == 10
}

/// The answer to `key` that the server must give.
pub open spec fn accept_for(key: Seq<u8>) -> Seq<u8> {
    base64_standard(sha1_digest(key + encode_utf8(WS_GUID@)))
}

/// The answer to `key` that the server must give.
pub fn expected_accept(key: &[u8]) -> (r: Vec<u8>)
    requires
        key@.len() <= 64,
    ensures
        r@ == accept_for(key@),
{
    let mut input: Vec<u8> = Vec::new();
    push_bytes(&mut input, key);
    push_str(&mut input, WS_GUID);
    proof {
        assert(input@ =~= key@ + encode_utf8(WS_GUID@));
        reveal_strlit("258EAFA5-E914-47DA-95CA-C5AB0DC85B11");
        is_ascii_chars_encode_utf8(WS_GUID@);
    }
    encode_base64(sha1(input.as_slice()).as_slice())
}

/// A comma-separated list of offered subprotocols holds one.
pub open spec fn offers(list: Seq<char>, selected: Seq<char>) -> bool
    decreases list.len(),
    via offers_decreases
{
    let comma = find(list, ',');
    ||| trim(list.take(comma)) == selected
    ||| comma < list.len() && offers(list.skip(comma + 1), selected)
}

#[via_fn]
proof fn offers_decreases(list: Seq<char>, selected: Seq<char>) {
    lemma_find(list, ',');
}

/// Whether a comma-separated list of offered subprotocols holds one.
fn is_offered(list: &str, selected: &str) -> (r: bool)
    ensures
        r == offers(list@, selected@),
{
    let items = chars_of(list);
    let wanted = chars_of(selected);
    let mut from: usize = 0;
    assert(items@.skip(0) =~= items@);
    loop
        invariant
            items@ == list@,
            wanted@ == selected@,
            from <= items@.len(),
            offers(items@.skip(from as int), wanted@) == offers(items@, wanted@),
        decreases items@.len() - from,
    {
        let comma: usize = find_char(items.as_slice(), ',', from);
        let (start, end) = trim_range(items.as_slice(), from, comma);
        assert(items@.subrange(from as int, comma as int) =~= items@.skip(from as int).take(
            comma - from,
        ));
        if range_eq(items.as_slice(), start, end, wanted.as_slice()) {
            return true;
        }
        if comma >= items.len() {
            return false;
        }
        assert(items@.skip(from as int).skip(comma - from + 1) =~= items@.skip(comma + 1));
        from = comma + 1;
    }
}

/// What the server selected, against what was offered.
pub open spec fn selection(selected: Option<Seq<u8>>, offered: Option<Seq<char>>) -> Result<
    Option<Seq<char>>,
    ConnectionError,
> {
    match selected {
        None => Ok(None),
        Some(bytes) => if !valid_utf8(bytes) {
            Err(ConnectionError::InvalidUtf8(utf8_error_of(bytes)))
        } else {
            match offered {
                Some(list) => if offers(list, decode_utf8(bytes)) {
                    Ok(Some(decode_utf8(bytes)))
                } else {
                    Err(ConnectionError::InvalidSubprotocol)
                },
                None => Err(ConnectionError::InvalidSubprotocol),
            }
        },
    }
}

/// What a response comes to: the subprotocol selected, or why the response is
/// refused.
pub open spec fn response_result(
    head: Seq<u8>,
    accept: Seq<u8>,
    offered: Option<Seq<char>>,
) -> Result<Option<Seq<char>>, ConnectionError> {
    let lines = lines(head);
    let given = first_field(lines, encode_utf8("sec-websocket-accept"@));
    if !status_ok(head) {
        Err(ConnectionError::BadStatus)
    } else if given is None {
        Err(ConnectionError::MissingAccept)
    } else if given != Some(accept) {
        Err(ConnectionError::BadAccept)
    } else if !any_field_has(lines, encode_utf8("upgrade"@), encode_utf8("websocket"@)) {
        Err(ConnectionError::MissingUpgrade)
    } else if !any_field_has(lines, encode_utf8("connection"@), encode_utf8("upgrade"@)) {
        Err(ConnectionError::MissingConnection)
    } else {
        selection(first_field(lines, encode_utf8("sec-websocket-protocol"@)), offered)
    }
}

/// Whether the response begins with the right status.
fn has_good_status(head: &[u8]) -> (r: bool)
    ensures
        r == status_ok(head@),
{
    let status = "HTTP/1.1 101".as_bytes();
    if !starts_with(head, status) || head.len() <= status.len() {
        return false;
    }
    let next: u8 = head[status.len()];
    next == 32 || next == 13 || next == 10
}

/// The bytes of an optional slice.
pub open spec fn opt_bytes(s: Option<&[u8]>) -> Option<Seq<u8>> {
    match s {
        Some(s) => Some(s@),
        None => None,
    }
}

/// Check the server's response: `head` is the header block, with line ends at
/// `line_ends`.
pub fn check_response(
    head: &[u8],
    line_ends: &Vec<usize>,
    key: &[u8],
    offered: &Option<String>,
) -> (r: Result<Option<String>, ConnectionError>)
    requires
        ends_are(line_ends@, head@),
        key@.len() <= 64,
    ensures
        match response_result(head@, accept_for(key@), opt_text(*offered)) {
            Ok(selected) => r matches Ok(s) && opt_text(s) == selected,
            Err(e) => r == Err::<Option<String>, ConnectionError>(e),
        },
{
    if !has_good_status(head) {
        return Err(ConnectionError::BadStatus);
    }
    let expected = expected_accept(key);
    let ghost all = lines(head@);
    let ghost n_accept = encode_utf8("sec-websocket-accept"@);
    let ghost n_upgrade = encode_utf8("upgrade"@);
    let ghost n_connection = encode_utf8("connection"@);
    let ghost n_protocol = encode_utf8("sec-websocket-protocol"@);
    let ghost t_websocket = encode_utf8("websocket"@);
    let mut accept: Option<&[u8]> = None;
    let mut has_upgrade: bool = false;
    let mut has_connection: bool = false;
    let mut subprotocol: Option<&[u8]> = None;
    let mut start: usize = 0;
    let mut i: usize = 0;
    proof {
        lemma_newlines_bound(head@);
        assert(all.take(0) =~= Seq::<Seq<u8>>::empty());
    }
    while i < line_ends.len()
        invariant
            ends_are(line_ends@, head@),
            all == lines(head@),
            i <= line_ends@.len(),
            start == line_start(head@, i as int),
            start <= head@.len(),
            forall|k: int|
                0 <= k < newlines(head@).len() ==> 0 <= #[trigger] newlines(head@)[k]
                    < head@.len() && head@[newlines(head@)[k]] == 10,
            forall|k: int, j: int|
                0 <= k < j < newlines(head@).len() ==> newlines(head@)[k] < newlines(head@)[j],
            n_accept == encode_utf8("sec-websocket-accept"@),
            n_upgrade == encode_utf8("upgrade"@),
            n_connection == encode_utf8("connection"@),
            n_protocol == encode_utf8("sec-websocket-protocol"@),
            t_websocket == encode_utf8("websocket"@),
            opt_bytes(accept) == first_field(all.take(i as int), n_accept),
            opt_bytes(subprotocol) == first_field(all.take(i as int), n_protocol),
            has_upgrade == any_field_has(all.take(i as int), n_upgrade, t_websocket),
            has_connection == any_field_has(all.take(i as int), n_connection, n_upgrade),
        decreases line_ends@.len() - i,
    {
        let nl: usize = line_ends[i];
        assert(nl == newlines(head@)[i as int]);
        let mut end: usize = nl;
        if nl > start && head[nl - 1] == 13 {
            end = nl - 1;
        }
        let line = slice_subrange(head, start, end);
        let ghost before = all.take(i as int);
        let ghost after = all.take(i + 1);
        proof {
            assert(line@ =~= all[i as int]);
            assert(after.drop_last() =~= before);
            assert(after.last() == line@);
            lemma_any_field_push(before, line@, n_upgrade, t_websocket);
            lemma_any_field_push(before, line@, n_connection, n_upgrade);
            assert(before.push(line@) =~= after);
        }
        if let Some(value) = field_of(line, "sec-websocket-accept") {
            if accept.is_none() {
                accept = Some(value);
            }
        }
        if let Some(value) = field_of(line, "upgrade") {
            if list_has(value, "websocket") {
                has_upgrade = true;
            }
        }
        if let Some(value) = field_of(line, "connection") {
            if list_has(value, "upgrade") {
                has_connection = true;
            }
        }
        if let Some(value) = field_of(line, "sec-websocket-protocol") {
            if subprotocol.is_none() {
                subprotocol = Some(value);
            }
        }
        assert(nl < head.len());
        start = nl + 1;
        i = i + 1;
    }
    assert(all.take(i as int) =~= all);
    match accept {
        None => {
            return Err(ConnectionError::MissingAccept);
        },
        Some(given) => {
            if !bytes_eq(given, expected.as_slice()) {
                return Err(ConnectionError::BadAccept);
            }
        },
    }
    if !has_upgrade {
        return Err(ConnectionError::MissingUpgrade);
    }
    if !has_connection {
        return Err(ConnectionError::MissingConnection);
    }
    match subprotocol {
        None => Ok(None),
        Some(bytes) => match decode_text(bytes) {
            Err(e) => Err(ConnectionError::InvalidUtf8(e)),
            Ok(selected) => match offered {
                Some(list) => if is_offered(list.as_str(), selected) {
                    Ok(Some(selected.to_string()))
                } else {
                    Err(ConnectionError::InvalidSubprotocol)
                },
                None => Err(ConnectionError::InvalidSubprotocol),
            },
        },
    }
}

proof fn lemma_any_field_push(before: Seq<Seq<u8>>, line: Seq<u8>, name: Seq<u8>, token: Seq<u8>)
    ensures
        any_field_has(before.push(line), name, token) == (any_field_has(before, name, token) || (
        field(line, name) matches Some(value) && has_token(value, token))),
{
    let after = before.push(line);
    if any_field_has(before, name, token) {
        let i = choose|i: int|
            0 <= i < before.len() && (#[trigger] field(before[i], name) matches Some(value)
                && has_token(value, token));
        assert(after[i] == before[i]);
    }
    if field(line, name) matches Some(value) && has_token(value, token) {
        assert(after[before.len() as int] == line);
        assert(field(after[before.len() as int], name) is Some);
    }
    if any_field_has(after, name, token) {
        let i = choose|i: int|
            0 <= i < after.len() && (#[trigger] field(after[i], name) matches Some(value)
                && has_token(value, token));
        if i < before.len() {
            assert(after[i] == before[i]);
            assert(field(before[i], name) is Some);
        }
    }
}

} // verus!
