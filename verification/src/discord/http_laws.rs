//! What requests say, what responses mean, and when a request is tried again.
use vstd::prelude::*;
use vstd::utf8::{
    encode_utf8, encode_utf8_decode_utf8, encode_utf8_valid_utf8, is_ascii_chars,
    is_ascii_chars_encode_utf8, valid_utf8,
};

use crate::bytes::{contains_no_case, eq_no_case, find_sub, lemma_find_is, trim_end, trim_start};
use crate::discord::api::{
    check_status, without_slashes, HttpApi, RequestEvent, RequestStep, RequestTask,
};
use crate::discord::chunk_laws::lemma_find_sub_more;
use crate::discord::error::Error;
use crate::discord::http::{
    head_of, number_of, parse_head, request_bytes, status_on, with_line, with_lines, HeadFields, Method,
    ResponseHead,
};
use crate::discord::response::{
    body_leads_to, completed, head_end, head_leads_to, read_fixed_body, response_resumes, send_and_read, Exchange,
    ResponseProgress, ResponseTask,
};
use crate::json::json_text_field;
use crate::text::{decimal, is_digit, law_decimal_round_trip};
use crate::ws::io::{IoError, IoErrorKind};

verus! {

/// A request as it goes out: method, path, host, token, user agent, and the body
/// with its type and its length in bytes.
pub proof fn law_request_bytes(
    method: Method,
    path: &str,
    token: &str,
    user_agent: &str,
    body: Option<&str>,
    r: Vec<u8>,
    exchange: Exchange,
)
    requires
        call_ensures(request_bytes, (method, path, token, user_agent, body), r),
        call_ensures(send_and_read, (token, user_agent, method, path, body), exchange),
    ensures
        ({
            let name = match method {
                Method::Get => "GET"@,
                Method::Post => "POST"@,
                Method::Put => "PUT"@,
                Method::Delete => "DELETE"@,
                Method::Patch => "PATCH"@,
            };
            let head = encode_utf8(name) + encode_utf8(" "@) + encode_utf8(path@) + encode_utf8(
                " HTTP/1.1\r\nHost: discord.com\r\nAuthorization: Bot "@,
            ) + encode_utf8(token@) + encode_utf8("\r\nUser-Agent: "@) + encode_utf8(user_agent@)
                + encode_utf8("\r\n"@);
            &&& body is None ==> r@ == head + encode_utf8("\r\n"@)
            &&& body matches Some(text) ==> r@ == head + (encode_utf8(
                "Content-Type: application/json\r\nContent-Length: "@,
            ) + encode_utf8(decimal(encode_utf8(text@).len())) + encode_utf8("\r\n\r\n"@)
                + encode_utf8(text@))
        }),
        exchange.request@ == r@,
{
}

/// What may be repeated without harm, and what may not.
pub proof fn law_harmless_methods(method: Method, r: bool)
    requires
        call_ensures(Method::is_idempotent, (&method,), r),
    ensures
        method == Method::Get || method == Method::Delete || method == Method::Patch ==> r,
        method == Method::Post || method == Method::Put ==> !r,
{
}

/// The status is the second word of the first line.
pub proof fn law_status_line(version: Seq<u8>, status: u16, rest: Seq<u8>)
    requires
        forall|i: int| 0 <= i < version.len() ==> version[i] != 32,
    ensures
        status_on(version + seq![32u8] + encode_utf8(decimal(status as nat)) + seq![32u8] + rest)
            == Some(status as nat),
        status_on(version + seq![32u8] + encode_utf8(decimal(status as nat))) == Some(
            status as nat,
        ),
        status_on(version) is None,
{
    let digits = encode_utf8(decimal(status as nat));
    lemma_number_bytes(status as nat, 65535);
    let line = version + seq![32u8] + digits + seq![32u8] + rest;
    let n = version.len() as int;
    lemma_find_is(line, 32u8, n);
    assert(line.skip(n + 1) =~= digits + seq![32u8] + rest);
    lemma_find_is(line.skip(n + 1), 32u8, digits.len() as int);
    assert(line.skip(n + 1).take(digits.len() as int) =~= digits);
    let short = version + seq![32u8] + digits;
    lemma_find_is(short, 32u8, n);
    assert(short.skip(n + 1) =~= digits);
    lemma_find_is(digits, 32u8, digits.len() as int);
    assert(digits.take(digits.len() as int) =~= digits);
    lemma_find_is(version, 32u8, n);
}

proof fn lemma_number_bytes(n: nat, max: nat)
    requires
        n <= max,
    ensures
        number_of(encode_utf8(decimal(n)), max) == Some(n),
        encode_utf8(decimal(n)).len() == decimal(n).len(),
        decimal(n).len() > 0,
        forall|i: int|
            0 <= i < encode_utf8(decimal(n)).len() ==> 48 <= #[trigger] encode_utf8(decimal(n))[i]
                <= 57,
{
    let s = decimal(n);
    law_decimal_round_trip(n, max);
    assert(is_ascii_chars(s)) by {
        assert forall|i: int| 0 <= i < s.len() implies '\0' <= #[trigger] s[i] <= '\u{7f}' by {
            assert(is_digit(s[i]));
        }
    }
    is_ascii_chars_encode_utf8(s);
    encode_utf8_valid_utf8(s);
    encode_utf8_decode_utf8(s);
    assert forall|i: int| 0 <= i < encode_utf8(s).len() implies 48 <= #[trigger] encode_utf8(s)[i]
        <= 57 by {
        assert(is_digit(s[i]));
        assert(s[i] as u8 == encode_utf8(s)[i]);
    }
}

proof fn lemma_header_names()
    ensures
        encode_utf8("retry-after"@).len() == 11,
        encode_utf8("x-ratelimit-reset-after"@).len() == 23,
        encode_utf8("connection"@).len() == 10,
        encode_utf8("close"@).len() == 5,
        encode_utf8("transfer-encoding"@).len() == 17,
        encode_utf8("chunked"@).len() == 7,
        encode_utf8("content-length"@).len() == 14,
{
    reveal_strlit("retry-after");
    reveal_strlit("x-ratelimit-reset-after");
    reveal_strlit("connection");
    reveal_strlit("close");
    reveal_strlit("transfer-encoding");
    reveal_strlit("chunked");
    reveal_strlit("content-length");
    is_ascii_chars_encode_utf8("retry-after"@);
    is_ascii_chars_encode_utf8("x-ratelimit-reset-after"@);
    is_ascii_chars_encode_utf8("connection"@);
    is_ascii_chars_encode_utf8("close"@);
    is_ascii_chars_encode_utf8("transfer-encoding"@);
    is_ascii_chars_encode_utf8("chunked"@);
    is_ascii_chars_encode_utf8("content-length"@);
}

/// A response's headers say how long its body is, whether it is chunked,
/// whether the connection stays open, and when to try again.  Names count
/// whatever their case; headers of other names say nothing.
pub proof fn law_response_headers(f: HeadFields, name: Seq<u8>, value: Seq<u8>, n: usize, t: Seq<char>)
    requires
        forall|i: int| 0 <= i < name.len() ==> name[i] != 58,
        value.len() > 0 ==> value[0] > 32 && value.last() > 32,
    ensures
        ({
            let g = with_line(f, name + seq![58u8, 32u8] + value);
            &&& eq_no_case(name, encode_utf8("content-length"@)) && value == encode_utf8(
                decimal(n as nat),
            ) ==> g == (HeadFields { content_length: Some(n as nat), ..f })
            &&& eq_no_case(name, encode_utf8("transfer-encoding"@)) ==> g == (HeadFields {
                chunked: contains_no_case(value, encode_utf8("chunked"@)),
                ..f
            })
            &&& eq_no_case(name, encode_utf8("connection"@)) && eq_no_case(
                value,
                encode_utf8("close"@),
            ) ==> g == (HeadFields { keep_alive: false, ..f })
            &&& eq_no_case(name, encode_utf8("connection"@)) && !eq_no_case(
                value,
                encode_utf8("close"@),
            ) ==> g == f
            &&& (eq_no_case(name, encode_utf8("retry-after"@)) || eq_no_case(
                name,
                encode_utf8("x-ratelimit-reset-after"@),
            )) && value == encode_utf8(t) ==> g == (HeadFields {
                retry_after: f.retry_after.push(t),
                ..f
            })
            &&& name.len() != 10 && name.len() != 11 && name.len() != 14 && name.len() != 17
                && name.len() != 23 ==> g == f
        }),
        with_line(f, name) == f,
{
    let line = name + seq![58u8, 32u8] + value;
    lemma_find_is(line, 58u8, name.len() as int);
    lemma_find_is(name, 58u8, name.len() as int);
    assert(line.take(name.len() as int) =~= name);
    let rest = line.skip(name.len() as int + 1);
    assert(rest =~= seq![32u8] + value);
    assert(rest.skip(1) =~= value);
    assert(trim_start(value) == value);
    assert(trim_start(rest) == value);
    assert(trim_end(value) == value);
    lemma_header_names();
    lemma_number_bytes(n as nat, usize::MAX as nat);
    encode_utf8_valid_utf8(t);
    encode_utf8_decode_utf8(t);
}

/// How the body is read: in chunks if the response says so, else by its length,
/// else to the end of the stream; some responses have none.
pub proof fn law_body_by_its_head(head: ResponseHead, leftover: Seq<u8>, r: ResponseProgress)
    requires
        body_leads_to(head, leftover, r),
    ensures
        !head.chunked && head.content_length is None && (head.status == 204 || head.status == 304)
            && valid_utf8(Seq::<u8>::empty()) ==> {
            &&& r matches ResponseProgress::Done(Ok(response))
            &&& encode_utf8(response.body@) == Seq::<u8>::empty()
            &&& response.status == head.status
            &&& response.keep_alive == head.keep_alive
        },
        !head.chunked && head.content_length is None && head.status != 204 && head.status != 304
            ==> {
            &&& r matches ResponseProgress::Read { task: ResponseTask::ToEnd { head: h, body }, max }
            &&& h == head
            &&& body@ == leftover
            &&& max == 4096
        },
        !head.chunked ==> (head.content_length matches Some(n) ==> {
            &&& n > 16 * 1024 * 1024 ==> r == ResponseProgress::Done(
                Err(Error::ResponseTooLarge(n)),
            )
            &&& leftover.len() < n <= 16 * 1024 * 1024 ==> {
                &&& r matches ResponseProgress::Read {
                    task: ResponseTask::Fixed { head: h, body, len },
                    max,
                }
                &&& h == head
                &&& body@ == leftover
                &&& len == n
                &&& max == n - leftover.len()
            }
        }),
{
}

/// A body that goes on to the end of the stream is what came before the end; the
/// connection cannot be used again.  It is limited like any other.
pub proof fn law_body_to_the_end(
    head: ResponseHead,
    body: Vec<u8>,
    data: Seq<u8>,
    text: Seq<char>,
    r: ResponseProgress,
    ended: ResponseProgress,
)
    requires
        data.len() > 0,
        body@.len() + data.len() <= usize::MAX,
        response_resumes(ResponseTask::ToEnd { head, body }, Ok(data), r),
        response_resumes(ResponseTask::ToEnd { head, body }, Ok(Seq::empty()), ended),
    ensures
        body@.len() + data.len() > 16 * 1024 * 1024 ==> r == ResponseProgress::Done(
            Err(Error::ResponseTooLarge((body@.len() + data.len()) as usize)),
        ),
        body@.len() + data.len() <= 16 * 1024 * 1024 ==> {
            &&& r matches ResponseProgress::Read { task: ResponseTask::ToEnd { head: h, body: b }, max }
            &&& h == head
            &&& b@ == body@ + data
        },
        body@ == encode_utf8(text) ==> {
            &&& ended matches ResponseProgress::Done(Ok(response))
            &&& response.status == head.status
            &&& response.body@ == text
            &&& !response.keep_alive
        },
{
    encode_utf8_valid_utf8(text);
    encode_utf8_decode_utf8(text);
    if let ResponseProgress::Done(Ok(response)) = ended {
        encode_utf8_decode_utf8(response.body@);
    }
}

/// A stream that ends too early, or fails, fails the request.
pub proof fn law_response_is_cut_short(
    task: ResponseTask,
    e: IoError,
    failed: ResponseProgress,
    ended: ResponseProgress,
)
    requires
        response_resumes(task, Err(e), failed),
        response_resumes(task, Ok(Seq::empty()), ended),
    ensures
        e.kind != IoErrorKind::Interrupted ==> failed == ResponseProgress::Done(Err(Error::Io(e))),
        task is Head ==> ended == ResponseProgress::Done(Err(Error::ConnectionClosed)),
        task is Fixed ==> ended matches ResponseProgress::Done(Err(Error::Io(_))),
{
}

/// Succeeded is what has a status from 200 to 299.
pub proof fn law_status_tells_success(status: u16, r: Result<(), Error>)
    requires
        call_ensures(check_status, (status,), r),
    ensures
        200 <= status <= 299 ==> r == Ok::<(), Error>(()),
        status <= 199 || status >= 300 ==> r == Err::<(), Error>(Error::ApiError { status }),
{
}

/// A request is tried four times at most.  A rate limit (429) is waited out as
/// the server says; after a server error the wait is one, two and four seconds.
/// Any other answer is the result, errors of the caller included.
pub proof fn law_request_is_retried(
    task: &mut RequestTask,
    status: u16,
    body: String,
    r: RequestStep,
)
    requires
        call_ensures(
            RequestTask::request,
            (task, RequestEvent::Answered { status, body }),
            r,
        ),
        old(task).attempt < 4,
    ensures
        ({
            let again = status == 429 || status >= 500;
            &&& !again ==> r == RequestStep::Done(Ok((status, body)))
            &&& again && old(task).attempt == 3 ==> r == RequestStep::Done(
                Err(Error::RetriesExhausted { status }),
            )
            &&& status == 429 && old(task).attempt < 3 ==> r is WaitAsTold
            &&& status >= 500 && old(task).attempt == 0 ==> r == (RequestStep::Wait { seconds: 1 })
            &&& status >= 500 && old(task).attempt == 1 ==> r == (RequestStep::Wait { seconds: 2 })
            &&& status >= 500 && old(task).attempt == 2 ==> r == (RequestStep::Wait { seconds: 4 })
        }),
        *final(task) == *old(task),
{
}

/// A request begins with an exchange; after a wait it is the next attempt; and
/// an exchange that failed is repeated once, on a fresh connection, if that does
/// no harm.  Where no connection can be had, the request fails.
pub proof fn law_request_course(
    new: RequestTask,
    method: Method,
    begun: &mut RequestTask,
    begin: RequestStep,
    waited: &mut RequestTask,
    next: RequestStep,
    broken: &mut RequestTask,
    e: Error,
    r: RequestStep,
    cut: &mut RequestTask,
    refused: RequestStep,
)
    requires
        call_ensures(RequestTask::new, (method,), new),
        call_ensures(RequestTask::request, (begun, RequestEvent::Begin), begin),
        call_ensures(RequestTask::request, (waited, RequestEvent::Waited), next),
        call_ensures(RequestTask::request, (broken, RequestEvent::ExchangeFailed(e)), r),
        call_ensures(RequestTask::request, (cut, RequestEvent::ConnectFailed(e)), refused),
        old(waited).attempt < 3,
    ensures
        new == (RequestTask { method, attempt: 0, retried: false }),
        begin == (RequestStep::Exchange { fresh: false }),
        next == (RequestStep::Exchange { fresh: false }),
        final(waited).attempt == old(waited).attempt + 1,
        !final(waited).retried,
        refused == RequestStep::Done(Err(e)),
        ({
            let harmless = old(broken).method == Method::Get || old(broken).method
                == Method::Delete || old(broken).method == Method::Patch;
            &&& harmless && !old(broken).retried ==> r == (RequestStep::Exchange { fresh: true })
                && final(broken).retried
            &&& !harmless || old(broken).retried ==> r == RequestStep::Done(Err(e))
        }),
{
}

/// The URL that the API answers with is used with the version and encoding
/// added, whether or not it ends with a slash.
pub proof fn law_gateway_url(answered: &str, r: String, url: Seq<char>)
    requires
        call_ensures(HttpApi::gateway_url, (answered,), r),
        url.len() > 0,
        url.last() != '/',
    ensures
        answered@ == url || answered@ == url.push('/') ==> r@ == url + "/?v=10&encoding=json"@,
{
    assert(without_slashes(url) == url);
    if answered@ == url.push('/') {
        assert(answered@.drop_last() =~= url);
        assert(without_slashes(answered@) == without_slashes(url));
    }
}

/// A response's head ends with the first empty line; what follows it is the
/// body's.  A head that does not end within 16384 bytes is too large.
pub proof fn law_head_ends(head: Seq<u8>, leftover: Seq<u8>, r: ResponseProgress, other: Seq<u8>, q: ResponseProgress)
    requires
        find_sub(head + seq![13u8, 10u8, 13u8, 10u8], seq![13u8, 10u8, 13u8, 10u8]) == head.len(),
        head_leads_to(head + seq![13u8, 10u8, 13u8, 10u8] + leftover, r),
        find_sub(other, seq![13u8, 10u8, 13u8, 10u8]) < 0,
        head_leads_to(other, q),
    ensures
        head_of(head) is None ==> r == ResponseProgress::Done(Err(Error::BadStatus)),
        head_of(head) matches Some((status, fields)) ==> exists|h: ResponseHead|
            h.status == status && #[trigger] h.fields() == fields && body_leads_to(
                h,
                leftover,
                r,
            ),
        other.len() > 16384 ==> q == ResponseProgress::Done(Err(Error::HeadersTooLarge)),
        other.len() <= 16384 ==> {
            &&& q matches ResponseProgress::Read { task: ResponseTask::Head { buf }, max }
            &&& buf@ == other
        },
{
    let end = seq![13u8, 10u8, 13u8, 10u8];
    assert(end =~= head_end());
    lemma_find_sub_more(head + end, leftover, end);
    let buf = head + end + leftover;
    assert(buf.take(head.len() as int) =~= head);
    assert(buf.skip(head.len() as int + 4) =~= leftover);
}

/// The head is read line by line, the status first.
pub proof fn law_head_is_read_by_lines(
    first: Seq<u8>,
    line: Seq<u8>,
    rest: Seq<u8>,
    f: HeadFields,
    front: Seq<u8>,
)
    requires
        forall|i: int| 0 <= i < first.len() ==> first[i] != 13,
        forall|i: int| 0 <= i < line.len() ==> line[i] != 13,
    ensures
        ({
            let head = front + line + seq![13u8, 10u8] + rest;
            let n = front.len() as int;
            line.len() > 0 ==> with_lines(f, head, n) == with_lines(
                with_line(f, line),
                head,
                n + line.len() + 2,
            )
        }),
        ({
            let head = first + seq![13u8, 10u8] + rest;
            &&& status_on(first) is None ==> head_of(head) is None
            &&& status_on(first) matches Some(status) ==> {
                &&& head_of(head) matches Some((s, fields))
                &&& s == status
                &&& rest.len() == 0 ==> fields == (HeadFields {
                    retry_after: Seq::empty(),
                    keep_alive: true,
                    chunked: false,
                    content_length: None,
                })
            }
        }),
{
    let head = front + line + seq![13u8, 10u8] + rest;
    let n = front.len() as int;
    assert(head.skip(n) =~= line + seq![13u8, 10u8] + rest);
    lemma_find_is(head.skip(n), 13u8, line.len() as int);
    assert(head.subrange(n, n + line.len()) =~= line);
    let other = first + seq![13u8, 10u8] + rest;
    lemma_find_is(other, 13u8, first.len() as int);
    assert(other.take(first.len() as int) =~= first);
}

/// A body is text, or the response is refused; the response says what its head
/// said.
pub proof fn law_response_is_text(
    head: ResponseHead,
    body: Seq<u8>,
    keep_alive: bool,
    text: Seq<char>,
    r: ResponseProgress,
)
    requires
        completed(head, body, keep_alive, r),
    ensures
        !valid_utf8(body) ==> r == ResponseProgress::Done(Err(Error::InvalidUtf8)),
        body == encode_utf8(text) ==> {
            &&& r matches ResponseProgress::Done(Ok(response))
            &&& response.body@ == text
            &&& response.status == head.status
            &&& response.keep_alive == keep_alive
            &&& response.retry_after == head.retry_after
        },
{
    encode_utf8_valid_utf8(text);
    encode_utf8_decode_utf8(text);
    if let ResponseProgress::Done(Ok(response)) = r {
        encode_utf8_decode_utf8(response.body@);
    }
}

/// The ID of a message that was posted is the answer's `id`; an answer without
/// one, or with one that is no number, gives none.
pub proof fn law_posted_message_id(
    status: u16,
    body: &str,
    r: Result<Option<u64>, Error>,
    id: u64,
)
    requires
        call_ensures(HttpApi::message_sent, (status, body), r),
    ensures
        status < 200 || status >= 300 ==> r == Err::<Option<u64>, Error>(
            Error::ApiError { status },
        ),
        200 <= status < 300 ==> {
            let field = json_text_field(body@, "id"@);
            &&& field == Ok::<Option<Seq<char>>, Seq<char>>(Some(decimal(id as nat))) ==> r == Ok::<
                Option<u64>,
                Error,
            >(Some(id))
            &&& field == Ok::<Option<Seq<char>>, Seq<char>>(None) ==> r == Ok::<
                Option<u64>,
                Error,
            >(None)
            &&& field is Err ==> r matches Err(Error::Json(_))
        },
{
    law_decimal_round_trip(id as nat, u64::MAX as nat);
}

/// Reading a response follows these rules.
pub proof fn law_reading_follows_its_rules(
    task: ResponseTask,
    data: &[u8],
    r: ResponseProgress,
    head: ResponseHead,
    body: Vec<u8>,
    len: usize,
    fixed: ResponseProgress,
    bytes: &[u8],
    parsed: Result<ResponseHead, Error>,
)
    requires
        call_ensures(ResponseTask::resume, (task, Ok::<&[u8], IoError>(data)), r),
        call_ensures(read_fixed_body, (head, body, len), fixed),
        call_ensures(parse_head, (bytes,), parsed),
    ensures
        response_resumes(task, Ok(data@), r),
        len > 16 * 1024 * 1024 ==> fixed == ResponseProgress::Done(
            Err(Error::ResponseTooLarge(len)),
        ),
        body@.len() < len <= 16 * 1024 * 1024 ==> {
            &&& fixed matches ResponseProgress::Read {
                task: ResponseTask::Fixed { head: h, body: b, len: l },
                max,
            }
            &&& h == head && b@ == body@ && l == len
            &&& max == len - body@.len()
        },
        head_of(bytes@) is None ==> parsed == Err::<ResponseHead, Error>(Error::BadStatus),
        head_of(bytes@) matches Some((status, fields)) ==> {
            &&& parsed is Ok
            &&& parsed->Ok_0.status == status
            &&& parsed->Ok_0.fields() == fields
        },
{
}

} // verus!
