//! HTTP/1.1 as the API client speaks it: requests, response heads, bodies.
use vstd::prelude::*;
use vstd::slice::slice_subrange;
use vstd::utf8::{decode_utf8, encode_utf8, valid_utf8};

use crate::bytes::{
    contains_ignore_ascii_case, contains_no_case, eq_ignore_ascii_case, eq_no_case, find,
    find_byte, lemma_find, push_str, trim_ascii, trimmed,
};
use crate::discord::error::Error;
use crate::ext::decode_text;
use crate::text::{chars_of, decimal, decimal_string, number_in, parse_number, texts};

verus! {

/// Largest response body that is accepted: 16 MiB.
pub const MAX_RESPONSE_BODY: usize = 16_777_216;

/// Largest response head that is accepted.
pub const MAX_RESPONSE_HEAD: usize = 16384;

/// How much is read at once where the amount is not known.
pub const READ_SIZE: usize = 4096;

#[derive(Debug, Clone, Copy, PartialEq, Eq, Structural)]
pub enum Method {
    Get,
    Post,
    Put,
    Delete,
    Patch,
}

impl Method {
    /// Methods that may be repeated without harm.
    pub open spec fn idempotent(self) -> bool {
        self == Method::Get || self == Method::Delete || self == Method::Patch
    }

    pub fn is_idempotent(&self) -> (r: bool)
        ensures
            r == self.idempotent(),
    {
        match self {
            Method::Get | Method::Delete | Method::Patch => true,
            Method::Post | Method::Put => false,
        }
    }

    pub open spec fn text(self) -> Seq<char> {
        match self {
            Method::Get => "GET"@,
            Method::Post => "POST"@,
            Method::Put => "PUT"@,
            Method::Delete => "DELETE"@,
            Method::Patch => "PATCH"@,
        }
    }

    /// The method as it stands in a request.
    pub fn name(&self) -> (r: &'static str)
        ensures
            r@ == self.text(),
    {
        match self {
            Method::Get => "GET",
            Method::Post => "POST",
            Method::Put => "PUT",
            Method::Delete => "DELETE",
            Method::Patch => "PATCH",
        }
    }
}

/// The head of a request, up to what depends on the body.
pub open spec fn request_head(
    method: Method,
    path: Seq<char>,
    token: Seq<char>,
    user_agent: Seq<char>,
) -> Seq<u8> {
    encode_utf8(method.text()) + encode_utf8(" "@) + encode_utf8(path) + encode_utf8(
        " HTTP/1.1\r\nHost: discord.com\r\nAuthorization: Bot "@,
    ) + encode_utf8(token) + encode_utf8("\r\nUser-Agent: "@) + encode_utf8(user_agent)
        + encode_utf8("\r\n"@)
}

/// The rest of a request: the body with its type and length, if there is one.
pub open spec fn request_rest(body: Option<Seq<char>>) -> Seq<u8> {
    match body {
        Some(body) => encode_utf8("Content-Type: application/json\r\nContent-Length: "@)
            + encode_utf8(decimal(encode_utf8(body).len())) + encode_utf8("\r\n\r\n"@)
            + encode_utf8(body),
        None => encode_utf8("\r\n"@),
    }
}

fn push_head(buf: &mut Vec<u8>, method: Method, path: &str, token: &str, user_agent: &str)
    ensures
        final(buf)@ == old(buf)@ + request_head(method, path@, token@, user_agent@),
{
    push_str(buf, method.name());
    push_str(buf, " ");
    push_str(buf, path);
    push_str(buf, " HTTP/1.1\r\nHost: discord.com\r\nAuthorization: Bot ");
    push_str(buf, token);
    push_str(buf, "\r\nUser-Agent: ");
    push_str(buf, user_agent);
    push_str(buf, "\r\n");
    assert(buf@ =~= old(buf)@ + request_head(method, path@, token@, user_agent@));
}

/// The text of an optional string.
pub open spec fn opt_str(s: Option<&str>) -> Option<Seq<char>> {
    match s {
        Some(s) => Some(s@),
        None => None,
    }
}

fn push_rest(buf: &mut Vec<u8>, body: Option<&str>)
    ensures
        final(buf)@ == old(buf)@ + request_rest(opt_str(body)),
{
    match body {
        Some(body) => {
            push_str(buf, "Content-Type: application/json\r\nContent-Length: ");
            push_str(buf, decimal_string(body.as_bytes().len() as u64).as_str());
            push_str(buf, "\r\n\r\n");
            push_str(buf, body);
        },
        None => {
            push_str(buf, "\r\n");
        },
    }
    assert(buf@ =~= old(buf)@ + request_rest(opt_str(body)));
}

/// A whole request.
pub fn request_bytes(
    method: Method,
    path: &str,
    token: &str,
    user_agent: &str,
    body: Option<&str>,
) -> (r: Vec<u8>)
    ensures
        r@ == request_head(method, path@, token@, user_agent@) + request_rest(opt_str(body)),
{
    let mut buf: Vec<u8> = Vec::new();
    push_head(&mut buf, method, path, token, user_agent);
    push_rest(&mut buf, body);
    assert(buf@ =~= request_head(method, path@, token@, user_agent@) + request_rest(opt_str(body)));
    buf
}

/// The text of some bytes, if they are UTF-8.
pub open spec fn text_of(b: Seq<u8>) -> Option<Seq<char>> {
    if valid_utf8(b) {
        Some(decode_utf8(b))
    } else {
        None
    }
}

/// The decimal number up to `max` that some bytes stand for.
pub open spec fn number_of(b: Seq<u8>, max: nat) -> Option<nat> {
    match text_of(b) {
        Some(s) => parse_number(s, max),
        None => None,
    }
}

/// Read a decimal number up to `max`.
fn byte_number(b: &[u8], max: u64) -> (r: Option<u64>)
    ensures
        match r {
            Some(n) => number_of(b@, max as nat) == Some(n as nat) && n <= max,
            None => number_of(b@, max as nat) is None,
        },
{
    match decode_text(b) {
        Ok(s) => number_in(chars_of(s).as_slice(), max),
        Err(_) => None,
    }
}

/// What the head of a response says, apart from its status.
pub struct HeadFields {
    /// How long to wait before trying again, as written, for each header that
    /// says so.
    pub retry_after: Seq<Seq<char>>,
    pub keep_alive: bool,
    pub chunked: bool,
    pub content_length: Option<nat>,
}

/// What a header line adds.
pub open spec fn with_line(f: HeadFields, line: Seq<u8>) -> HeadFields {
    let colon = find(line, 58u8);
    let name = line.take(colon);
    let value = trimmed(line.skip(colon + 1));
    if colon >= line.len() {
        f
    } else if eq_no_case(name, encode_utf8("retry-after"@)) || eq_no_case(
        name,
        encode_utf8("x-ratelimit-reset-after"@),
    ) {
        match text_of(value) {
            Some(s) => HeadFields { retry_after: f.retry_after.push(s), ..f },
            None => f,
        }
    } else if eq_no_case(name, encode_utf8("connection"@)) && eq_no_case(
        value,
        encode_utf8("close"@),
    ) {
        HeadFields { keep_alive: false, ..f }
    } else if eq_no_case(name, encode_utf8("transfer-encoding"@)) {
        HeadFields { chunked: contains_no_case(value, encode_utf8("chunked"@)), ..f }
    } else if eq_no_case(name, encode_utf8("content-length"@)) {
        HeadFields { content_length: number_of(value, usize::MAX as nat), ..f }
    } else {
        f
    }
}

/// What the header lines from `pos` on add.
pub open spec fn with_lines(f: HeadFields, head: Seq<u8>, pos: int) -> HeadFields
    decreases head.len() + 2 - pos,
    via with_lines_decreases
{
    if 0 <= pos < head.len() {
        let end = pos + find(head.skip(pos), 13u8);
        with_lines(with_line(f, head.subrange(pos, end)), head, end + 2)
    } else {
        f
    }
}

#[via_fn]
proof fn with_lines_decreases(f: HeadFields, head: Seq<u8>, pos: int) {
    lemma_find(head.skip(pos), 13u8);
}

/// The status on a status line: its second word.
pub open spec fn status_on(line: Seq<u8>) -> Option<nat> {
    let space = find(line, 32u8);
    if space >= line.len() {
        None
    } else {
        let rest = line.skip(space + 1);
        number_of(rest.take(find(rest, 32u8)), 65535)
    }
}

/// What nothing says otherwise of.
pub open spec fn no_fields() -> HeadFields {
    HeadFields { retry_after: Seq::empty(), keep_alive: true, chunked: false, content_length: None }
}

/// Status and fields of a response head.
pub open spec fn head_of(head: Seq<u8>) -> Option<(nat, HeadFields)> {
    let first = find(head, 13u8);
    match status_on(head.take(first)) {
        Some(status) => Some((status, with_lines(no_fields(), head, first + 2))),
        None => None,
    }
}

/// The head of a response.
#[derive(Debug)]
pub struct ResponseHead {
    pub status: u16,
    /// How long to wait before trying again, as written, for each header that
    /// says so.
    pub retry_after: Vec<String>,
    pub keep_alive: bool,
    pub chunked: bool,
    pub content_length: Option<usize>,
}

impl ResponseHead {
    pub open spec fn fields(self) -> HeadFields {
        HeadFields {
            retry_after: texts(self.retry_after@),
            keep_alive: self.keep_alive,
            chunked: self.chunked,
            content_length: match self.content_length {
                Some(n) => Some(n as nat),
                None => None,
            },
        }
    }

    /// Take in a header line.
    fn add_line(&mut self, line: &[u8])
        ensures
            final(self).fields() == with_line(old(self).fields(), line@),
            final(self).status == old(self).status,
    {
        let colon: usize = find_byte(line, 58, 0);
        assert(line@.skip(0) =~= line@);
        if colon >= line.len() {
            return;
        }
        let name = slice_subrange(line, 0, colon);
        assert(name@ =~= line@.take(colon as int));
        let value = slice_subrange(line, colon + 1, line.len());
        assert(value@ =~= line@.skip(colon + 1));
        let value = trim_ascii(value);
        if eq_ignore_ascii_case(name, "retry-after".as_bytes()) || eq_ignore_ascii_case(
            name,
            "x-ratelimit-reset-after".as_bytes(),
        ) {
            match decode_text(value) {
                Ok(s) => {
                    self.retry_after.push(s.to_string());
                    assert(texts(self.retry_after@) =~= texts(old(self).retry_after@).push(s@));
                },
                Err(_) => {},
            }
        } else if eq_ignore_ascii_case(name, "connection".as_bytes()) && eq_ignore_ascii_case(
            value,
            "close".as_bytes(),
        ) {
            self.keep_alive = false;
        } else if eq_ignore_ascii_case(name, "transfer-encoding".as_bytes()) {
            self.chunked = contains_ignore_ascii_case(value, "chunked".as_bytes());
        } else if eq_ignore_ascii_case(name, "content-length".as_bytes()) {
            self.content_length = match byte_number(value, usize::MAX as u64) {
                Some(n) => Some(n as usize),
                None => None,
            };
        }
    }
}

/// The status on a status line.
fn parse_status(line: &[u8]) -> (r: Option<u16>)
    ensures
        match r {
            Some(status) => status_on(line@) == Some(status as nat),
            None => status_on(line@) is None,
        },
{
    let space: usize = find_byte(line, 32, 0);
    assert(line@.skip(0) =~= line@);
    if space >= line.len() {
        return None;
    }
    let end: usize = find_byte(line, 32, space + 1);
    let word = slice_subrange(line, space + 1, end);
    let ghost rest = line@.skip(space + 1);
    assert(word@ =~= rest.take(find(rest, 32u8)));
    match byte_number(word, 65535) {
        Some(status) => Some(status as u16),
        None => None,
    }
}

/// Read the head of a response, without the blank line that ends it.
pub fn parse_head(head: &[u8]) -> (r: Result<ResponseHead, Error>)
    requires
        head@.len() + 4 <= usize::MAX,
    ensures
        match head_of(head@) {
            Some((status, fields)) => r matches Ok(h) && h.status == status && h.fields() == fields,
            None => r == Err::<ResponseHead, Error>(Error::BadStatus),
        },
{
    let first: usize = find_byte(head, 13, 0);
    assert(head@.skip(0) =~= head@);
    let line = slice_subrange(head, 0, first);
    assert(line@ =~= head@.take(first as int));
    let status: u16 = match parse_status(line) {
        Some(status) => status,
        None => {
            return Err(Error::BadStatus);
        },
    };
    let mut h = ResponseHead {
        status,
        retry_after: Vec::new(),
        keep_alive: true,
        chunked: false,
        content_length: None,
    };
    assert(texts(h.retry_after@) =~= Seq::<Seq<char>>::empty());
    let ghost all = with_lines(no_fields(), head@, first + 2);
    let mut pos: usize = first + 2;
    while pos < head.len()
        invariant
            head@.len() + 4 <= usize::MAX,
            h.status == status,
            with_lines(h.fields(), head@, pos as int) == all,
        decreases head@.len() + 2 - pos,
    {
        let end: usize = find_byte(head, 13, pos);
        let line = slice_subrange(head, pos, end);
        h.add_line(line);
        pos = end + 2;
    }
    Ok(h)
}

} // verus!
