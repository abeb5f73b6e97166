//! Requests, responses and the rules for retrying.
use std::io::{Cursor, Read};

use kamekichi::discord::api::{
    check_status, percent_encode, posted_message_id, HttpApi, RequestEvent, RequestStep,
    RequestTask,
};
use kamekichi::discord::error::Error;
use kamekichi::discord::http::{parse_head, request_bytes, Method, MAX_RESPONSE_BODY};
use kamekichi::discord::response::{
    read_fixed_body, send_and_read, ResponseProgress, ResponseTask,
};
use kamekichi::ws::io::{IoError, IoErrorKind};

/// Read a response off a stream.
fn read_response(stream: &mut impl Read) -> Result<(u16, Option<f64>, String, bool), Error> {
    let exchange = send_and_read("tok", "test-agent", Method::Get, "/test", None);
    assert!(exchange.request.starts_with(b"GET /test HTTP/1.1\r\n"));
    let mut progress = ResponseProgress::Read { task: exchange.response, max: 4096 };
    loop {
        match progress {
            ResponseProgress::Read { task, max } => {
                let mut buf = vec![0u8; max];
                let n = stream.read(&mut buf).unwrap();
                progress = task.resume(Ok(&buf[..n]));
            }
            ResponseProgress::Done(result) => {
                let r = result?;
                let retry_after = r.retry_after.iter().find_map(|s| s.parse::<f64>().ok());
                return Ok((r.status, retry_after, r.body, r.keep_alive));
            }
        }
    }
}

fn http_response(status: u16, headers: &str, body: &str) -> Vec<u8> {
    format!(
        "HTTP/1.1 {status} OK\r\n\
         Content-Length: {len}\r\n\
         {headers}\
         \r\n\
         {body}",
        len = body.len(),
    )
    .into_bytes()
}

/// A stream that gives a few bytes at a time.
struct Trickle {
    rx: Cursor<Vec<u8>>,
    size: usize,
}

impl Read for Trickle {
    fn read(&mut self, buf: &mut [u8]) -> std::io::Result<usize> {
        let n = self.size.min(buf.len());
        self.rx.read(&mut buf[..n])
    }
}

fn do_request(response: Vec<u8>) -> Result<(u16, Option<f64>, String, bool), Error> {
    let whole = read_response(&mut Cursor::new(response.clone()));
    // However the bytes arrive, the result is the same.
    for size in [1, 3, 7] {
        let cut = read_response(&mut Trickle { rx: Cursor::new(response.clone()), size });
        assert_eq!(format!("{cut:?}"), format!("{whole:?}"));
    }
    whole
}

// -- Fixed body --

#[test]
fn fixed_body_happy_path() {
    let resp = http_response(200, "", r#"{"ok":true}"#);
    let (status, _, body, keep_alive) = do_request(resp).unwrap();
    assert_eq!(status, 200);
    assert_eq!(body, r#"{"ok":true}"#);
    assert!(keep_alive);
}

#[test]
fn fixed_body_too_large() {
    let len = MAX_RESPONSE_BODY + 1;
    let resp = format!("HTTP/1.1 200 OK\r\nContent-Length: {len}\r\n\r\n").into_bytes();
    assert!(matches!(do_request(resp), Err(Error::ResponseTooLarge(_))));
}

// -- Chunked body --

#[test]
fn chunked_body_happy_path() {
    let resp = b"HTTP/1.1 200 OK\r\n\
                 Transfer-Encoding: chunked\r\n\
                 \r\n\
                 5\r\nhello\r\n\
                 6\r\n world\r\n\
                 0\r\n\r\n"
        .to_vec();
    let (status, _, body, _) = do_request(resp).unwrap();
    assert_eq!(status, 200);
    assert_eq!(body, "hello world");
}

#[test]
fn chunked_body_single_chunk_too_large() {
    let size = MAX_RESPONSE_BODY + 1;
    let resp = format!(
        "HTTP/1.1 200 OK\r\n\
         Transfer-Encoding: chunked\r\n\
         \r\n\
         {size:x}\r\n"
    )
    .into_bytes();
    assert!(matches!(do_request(resp), Err(Error::ResponseTooLarge(_))));
}

// -- Header case insensitivity --

#[test]
fn header_case_insensitive() {
    let resp = b"HTTP/1.1 200 OK\r\n\
                 CONTENT-LENGTH: 2\r\n\
                 \r\n\
                 ok"
    .to_vec();
    let (status, _, body, _) = do_request(resp).unwrap();
    assert_eq!(status, 200);
    assert_eq!(body, "ok");
}

// -- Connection: close --

#[test]
fn connection_close_header() {
    let resp = http_response(200, "Connection: close\r\n", "ok");
    let (_, _, _, keep_alive) = do_request(resp).unwrap();
    assert!(!keep_alive);
}

// -- 204 No Content --

#[test]
fn no_content_204() {
    let resp = b"HTTP/1.1 204 No Content\r\n\r\n".to_vec();
    let (status, _, body, _) = do_request(resp).unwrap();
    assert_eq!(status, 204);
    assert!(body.is_empty());
}

// -- Invalid UTF-8 --

#[test]
fn invalid_utf8_body_rejected() {
    let invalid = [0xFF, 0xFE];
    let resp = format!("HTTP/1.1 200 OK\r\nContent-Length: 2\r\n\r\n")
        .into_bytes()
        .into_iter()
        .chain(invalid)
        .collect::<Vec<_>>();
    assert!(matches!(do_request(resp), Err(Error::InvalidUtf8)));
}

// -- Retry-After --

#[test]
fn retry_after_parsed() {
    let resp = http_response(429, "Retry-After: 1.5\r\n", "{}");
    let (status, retry_after, _, _) = do_request(resp).unwrap();
    assert_eq!(status, 429);
    assert_eq!(retry_after, Some(1.5));
}

// -- Malformed status --

#[test]
fn malformed_status_line() {
    let resp = b"GARBAGE\r\n\r\n".to_vec();
    assert!(matches!(do_request(resp), Err(Error::BadStatus)));
}

// -- Further rules of responses --

#[test]
fn chunk_extensions_trailers_and_early_ends() {
    let head = "HTTP/1.1 200 OK\r\nTransfer-Encoding: gzip, Chunked\r\n\r\n";
    let body = |b: &str| do_request(format!("{head}{b}").into_bytes());
    assert_eq!(body("A;x=1\r\n0123456789\r\n0\r\nT: v\r\n\r\n").unwrap().2, "0123456789");
    assert_eq!(body(" 2 \r\nab\r\n0\r\n").unwrap().2, "ab");
    assert!(matches!(body("2\r\na"), Err(Error::ConnectionClosed)));
    assert!(matches!(body("xyz\r\n"), Err(Error::MalformedChunk)));
    assert!(matches!(body(""), Err(Error::ConnectionClosed)));
}

#[test]
fn body_to_the_end_of_the_stream() {
    let resp = b"HTTP/1.1 200 OK\r\n\r\nrest".to_vec();
    let (_, _, body, keep_alive) = do_request(resp).unwrap();
    assert_eq!(body, "rest");
    assert!(!keep_alive);
}

#[test]
fn fixed_body_ends_early() {
    let resp = b"HTTP/1.1 200 OK\r\nContent-Length: 9\r\n\r\nshort".to_vec();
    match do_request(resp) {
        Err(Error::Io(e)) => assert_eq!(e.kind, IoErrorKind::UnexpectedEof),
        other => panic!("expected an I/O error, got {other:?}"),
    }
}

#[test]
fn headers_too_large_and_missing() {
    let resp = vec![b'x'; 20_000];
    assert!(matches!(do_request(resp), Err(Error::HeadersTooLarge)));
    assert!(matches!(do_request(b"HTTP/1.1 200".to_vec()), Err(Error::ConnectionClosed)));
}

#[test]
fn fixed_body_read_takes_interruptions_in_stride() {
    let err = |kind| IoError { kind, message: String::new() };
    let task = match ResponseTask::new().resume(Ok(b"HTTP/1.1 200 OK\r\nContent-Length: 3\r\n\r\na"))
    {
        ResponseProgress::Read { task, max } => {
            assert_eq!(max, 2);
            task
        }
        other => panic!("expected Read, got {other:?}"),
    };
    let task = match task.resume(Err(err(IoErrorKind::Interrupted))) {
        ResponseProgress::Read { task, max } => {
            assert_eq!(max, 2);
            task
        }
        other => panic!("expected Read, got {other:?}"),
    };
    assert!(matches!(
        task.resume(Err(err(IoErrorKind::TimedOut))),
        ResponseProgress::Done(Err(Error::Io(_)))
    ));
}

#[test]
fn heads() {
    let h = parse_head(
        b"HTTP/1.1 503 x\r\nX-RateLimit-Reset-After: later\r\nretry-after: 2\r\n\
          content-length: x\r\nno colon here\r\nConnection: Close",
    )
    .unwrap();
    assert_eq!(h.status, 503);
    assert_eq!(h.retry_after, ["later", "2"]);
    assert_eq!(h.content_length, None);
    assert!(!h.keep_alive);
    assert!(!h.chunked);
    assert!(matches!(parse_head(b"HTTP/1.1 70000 x"), Err(Error::BadStatus)));
}

// -- Requests --

#[test]
fn request_text() {
    let get = request_bytes(Method::Get, "/p", "tok", "agent", None);
    assert_eq!(
        std::str::from_utf8(&get).unwrap(),
        "GET /p HTTP/1.1\r\nHost: discord.com\r\nAuthorization: Bot tok\r\nUser-Agent: agent\r\n\r\n"
    );
    let post = request_bytes(Method::Post, "/p", "tok", "agent", Some("{\"\u{e4}\":1}"));
    assert_eq!(
        std::str::from_utf8(&post).unwrap(),
        "POST /p HTTP/1.1\r\nHost: discord.com\r\nAuthorization: Bot tok\r\nUser-Agent: agent\r\n\
         Content-Type: application/json\r\nContent-Length: 8\r\n\r\n{\"\u{e4}\":1}"
    );
}

#[test]
fn api_calls() {
    let r = HttpApi::send_message(5, "say \"hi\"\n\u{1}\u{e4}");
    assert_eq!(r.method, Method::Post);
    assert_eq!(r.path, "/api/v10/channels/5/messages");
    let body = r.body.unwrap();
    assert_eq!(body, "{\"content\":\"say \\\"hi\\\"\\n\\u0001\u{e4}\"}");
    let v: serde_json::Value = serde_json::from_str(&body).unwrap();
    assert_eq!(v["content"], "say \"hi\"\n\u{1}\u{e4}");
    let r = HttpApi::edit_message(5, 6, "x");
    assert_eq!((r.method, r.path.as_str()), (Method::Patch, "/api/v10/channels/5/messages/6"));
    let r = HttpApi::add_reaction(5, 6, "\u{1f44d}");
    assert_eq!(r.method, Method::Put);
    assert_eq!(r.path, "/api/v10/channels/5/messages/6/reactions/%F0%9F%91%8D/@me");
    let r = HttpApi::add_role(1, 2, 3);
    assert_eq!((r.method, r.path.as_str()), (Method::Put, "/api/v10/guilds/1/members/2/roles/3"));
    let r = HttpApi::remove_role(1, 2, 3);
    assert_eq!(
        (r.method, r.path.as_str()),
        (Method::Delete, "/api/v10/guilds/1/members/2/roles/3")
    );
    assert_eq!(HttpApi::get_gateway_url().path, "/api/v10/gateway/bot");
    assert_eq!(HttpApi::gateway_url("wss://gw.discord.gg//"), "wss://gw.discord.gg/?v=10&encoding=json");
    assert_eq!(HttpApi::gateway_url("wss://gw"), "wss://gw/?v=10&encoding=json");
}

#[test]
fn percent_encoding() {
    assert_eq!(percent_encode("aZ0-_.~:@"), "aZ0-_.~:@");
    assert_eq!(percent_encode("a b/%"), "a%20b%2F%25");
    assert_eq!(percent_encode("kame:999"), "kame:999");
}

#[test]
fn statuses_and_ids() {
    assert!(check_status(200).is_ok());
    assert!(check_status(299).is_ok());
    assert!(matches!(check_status(300), Err(Error::ApiError { status: 300 })));
    assert!(matches!(check_status(199), Err(Error::ApiError { status: 199 })));
    assert_eq!(HttpApi::message_sent(200, r#"{"id":"77"}"#).unwrap(), Some(77));
    assert_eq!(HttpApi::message_sent(200, r#"{"id":77}"#).unwrap(), None);
    assert_eq!(HttpApi::message_sent(200, r#"{"id":"x"}"#).unwrap(), None);
    assert_eq!(HttpApi::message_sent(200, "[]").unwrap(), None);
    assert!(matches!(HttpApi::message_sent(200, "nope"), Err(Error::Json(_))));
    assert!(matches!(HttpApi::message_sent(404, "{}"), Err(Error::ApiError { status: 404 })));
    assert_eq!(posted_message_id(Ok(Some("18446744073709551615".to_string()))).unwrap(), Some(u64::MAX));
    assert_eq!(posted_message_id(Ok(Some("18446744073709551616".to_string()))).unwrap(), None);
}

// -- Retrying --

fn answered(status: u16) -> RequestEvent {
    RequestEvent::Answered { status, body: "b".to_string() }
}

#[test]
fn server_errors_back_off_and_give_up() {
    let mut t = RequestTask::new(Method::Get);
    assert!(matches!(t.request(RequestEvent::Begin), RequestStep::Exchange { fresh: false }));
    for want in [1, 2, 4] {
        assert!(matches!(
            t.request(answered(500)),
            RequestStep::Wait { seconds } if seconds == want
        ));
        assert!(matches!(t.request(RequestEvent::Waited), RequestStep::Exchange { fresh: false }));
    }
    assert!(matches!(
        t.request(answered(502)),
        RequestStep::Done(Err(Error::RetriesExhausted { status: 502 }))
    ));
}

#[test]
fn rate_limits_wait_as_told() {
    let mut t = RequestTask::new(Method::Post);
    assert!(matches!(t.request(answered(429)), RequestStep::WaitAsTold));
    t.request(RequestEvent::Waited);
    assert!(matches!(
        t.request(answered(404)),
        RequestStep::Done(Ok((404, body))) if body == "b"
    ));
}

#[test]
fn lost_answers_are_retried_once_if_harmless() {
    let mut t = RequestTask::new(Method::Get);
    assert!(matches!(
        t.request(RequestEvent::ExchangeFailed(Error::ConnectionClosed)),
        RequestStep::Exchange { fresh: true }
    ));
    assert!(matches!(
        t.request(RequestEvent::ExchangeFailed(Error::ConnectionClosed)),
        RequestStep::Done(Err(Error::ConnectionClosed))
    ));
    for method in [Method::Post, Method::Put] {
        let mut t = RequestTask::new(method);
        assert!(matches!(
            t.request(RequestEvent::ExchangeFailed(Error::ConnectionClosed)),
            RequestStep::Done(Err(Error::ConnectionClosed))
        ));
    }
    let mut t = RequestTask::new(Method::Delete);
    assert!(matches!(
        t.request(RequestEvent::ConnectFailed(Error::InvalidDnsName)),
        RequestStep::Done(Err(Error::InvalidDnsName))
    ));
}

#[test]
fn fixed_body_is_refused_before_it_is_read() {
    let head = || parse_head(b"HTTP/1.1 200 OK\r\nContent-Length: 3").unwrap();
    match read_fixed_body(head(), Vec::new(), MAX_RESPONSE_BODY + 1) {
        ResponseProgress::Done(Err(Error::ResponseTooLarge(n))) => {
            assert_eq!(n, MAX_RESPONSE_BODY + 1)
        }
        other => panic!("expected an error, got {other:?}"),
    }
    match read_fixed_body(head(), b"ab".to_vec(), MAX_RESPONSE_BODY) {
        ResponseProgress::Read { max, .. } => assert_eq!(max, MAX_RESPONSE_BODY - 2),
        other => panic!("expected a read, got {other:?}"),
    }
    match read_fixed_body(head(), b"abcd".to_vec(), 3) {
        ResponseProgress::Done(Ok(r)) => assert_eq!(r.body, "abc"),
        other => panic!("expected a body, got {other:?}"),
    }
}

#[test]
fn chunk_sizes_in_any_case_with_extensions_and_trailers() {
    let resp = b"HTTP/1.1 200 OK\r\nTransfer-Encoding: chunked\r\n\r\n\
        00A;name=value\r\n0123456789\r\n\
        a;x\r\nabcdefghij\r\n\
        000;last\r\nTrailer: one\r\nOther: two\r\n\r\n"
        .to_vec();
    let (_, _, body, _) = do_request(resp).unwrap();
    assert_eq!(body, "0123456789abcdefghij");
}
