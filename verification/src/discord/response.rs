//! Reading a response off the stream, one read at a time.
use vstd::prelude::*;
use vstd::slice::{slice_subrange, slice_to_vec};
use vstd::utf8::{encode_utf8, valid_utf8};

use crate::bytes::{find_sub, find_subslice, push_bytes};
use crate::discord::chunked::{
    chunks_end, run_chunks, ChunkModel, ChunkReader, ChunkStage, ChunkStop,
};
use crate::discord::error::Error;
use crate::discord::http::{
    head_of, opt_str, parse_head, request_bytes, request_head, request_rest, Method,
    ResponseHead, MAX_RESPONSE_BODY, MAX_RESPONSE_HEAD, READ_SIZE,
};
use crate::ext::decode_text;
use crate::ws::io::{IoError, IoErrorKind};

verus! {

/// A response.
#[derive(Debug)]
pub struct Response {
    pub status: u16,
    /// How long to wait before trying again, as written, for each header that
    /// says so.
    pub retry_after: Vec<String>,
    pub body: String,
    /// Whether the connection can be used again.
    pub keep_alive: bool,
}

/// A response that is being read.
#[derive(Debug)]
pub enum ResponseTask {
    /// The head, as far as it has come.
    Head { buf: Vec<u8> },
    /// A chunked body.
    Chunked { head: ResponseHead, reader: ChunkReader },
    /// A body of known length, as far as it has come.
    Fixed { head: ResponseHead, body: Vec<u8>, len: usize },
    /// A body that goes on to the end of the stream, as far as it has come.
    ToEnd { head: ResponseHead, body: Vec<u8> },
}

/// Where reading a response stands.
#[derive(Debug)]
pub enum ResponseProgress {
    /// Up to `max` bytes are to be read.
    Read { task: ResponseTask, max: usize },
    Done(Result<Response, Error>),
}

/// What ends the head of a response.
pub open spec fn head_end() -> Seq<u8> {
    seq![13u8, 10u8, 13u8, 10u8]
}

impl ResponseTask {
    pub open spec fn wf(self) -> bool {
        match self {
            ResponseTask::Head { .. } | ResponseTask::ToEnd { .. } => true,
            ResponseTask::Chunked { head, reader } => reader.wf(),
            ResponseTask::Fixed { head, body, len } => body@.len() < len,
        }
    }

    /// How much may be read for it at once.
    pub open spec fn max(self) -> int {
        match self {
            ResponseTask::Fixed { head, body, len } => len - body@.len(),
            _ => READ_SIZE as int,
        }
    }
}

/// The response with that body is complete, if the body is text.
pub open spec fn completed(
    head: ResponseHead,
    body: Seq<u8>,
    keep_alive: bool,
    r: ResponseProgress,
) -> bool {
    if valid_utf8(body) {
        &&& r matches ResponseProgress::Done(Ok(response))
        &&& response.status == head.status
        &&& response.retry_after == head.retry_after
        &&& encode_utf8(response.body@) == body
        &&& response.keep_alive == keep_alive
    } else {
        r == ResponseProgress::Done(Err(Error::InvalidUtf8))
    }
}

/// What decoding a chunked body so far leads to.
pub open spec fn chunks_lead_to(head: ResponseHead, m: ChunkModel, r: ResponseProgress) -> bool {
    let (m1, stop) = run_chunks(m);
    match stop {
        ChunkStop::More => {
            &&& r matches ResponseProgress::Read {
                task: ResponseTask::Chunked { head: h, reader },
                max,
            }
            &&& h == head
            &&& reader.model() == m1
            &&& reader.wf()
            &&& max == READ_SIZE
        },
        ChunkStop::Done => completed(head, m1.body, head.keep_alive, r),
        ChunkStop::Fail(e) => r == ResponseProgress::Done(Err(e)),
    }
}

/// What a body of known length leads to, with `have` of it here.  One that is
/// too large is refused before anything of it is read.
pub open spec fn fixed_leads_to(
    head: ResponseHead,
    have: Seq<u8>,
    len: usize,
    r: ResponseProgress,
) -> bool {
    if len > MAX_RESPONSE_BODY {
        r == ResponseProgress::Done(Err(Error::ResponseTooLarge(len)))
    } else if have.len() < len {
        &&& r matches ResponseProgress::Read {
            task: ResponseTask::Fixed { head: h, body, len: l },
            max,
        }
        &&& h == head
        &&& body@ == have
        &&& l == len
        &&& max == len - have.len()
    } else {
        completed(head, have.take(len as int), head.keep_alive, r)
    }
}

/// What follows once the head is here, with the first bytes of the body: the
/// body is chunked, of known length, absent, or everything to the end of the
/// stream.
pub open spec fn body_leads_to(head: ResponseHead, leftover: Seq<u8>, r: ResponseProgress) -> bool {
    if head.chunked {
        chunks_lead_to(
            head,
            ChunkModel { rest: leftover, body: Seq::empty(), stage: ChunkStage::Size },
            r,
        )
    } else if let Some(len) = head.content_length {
        fixed_leads_to(head, leftover, len, r)
    } else if head.status == 204 || head.status == 304 {
        completed(head, Seq::empty(), head.keep_alive, r)
    } else {
        &&& r matches ResponseProgress::Read {
            task: ResponseTask::ToEnd { head: h, body },
            max,
        }
        &&& h == head
        &&& body@ == leftover
        &&& max == READ_SIZE
    }
}

/// What the bytes so far lead to while the head is read.
pub open spec fn head_leads_to(buf: Seq<u8>, r: ResponseProgress) -> bool {
    let end = find_sub(buf, head_end());
    if end >= 0 {
        match head_of(buf.take(end)) {
            None => r == ResponseProgress::Done(Err(Error::BadStatus)),
            Some((status, fields)) => exists|head: ResponseHead|
                head.status == status && #[trigger] head.fields() == fields && body_leads_to(
                    head,
                    buf.skip(end + 4),
                    r,
                ),
        }
    } else if buf.len() > MAX_RESPONSE_HEAD {
        r == ResponseProgress::Done(Err(Error::HeadersTooLarge))
    } else {
        &&& r matches ResponseProgress::Read { task: ResponseTask::Head { buf: b }, max }
        &&& b@ == buf
        &&& max == READ_SIZE
    }
}

/// What a read does to a response in progress.  An empty read is the end of
/// the stream.
pub open spec fn response_resumes(
    task: ResponseTask,
    input: Result<Seq<u8>, IoError>,
    r: ResponseProgress,
) -> bool {
    match (task, input) {
        // Waiting for a known number of bytes takes interruptions in stride.
        (ResponseTask::Fixed { head, body, len }, Err(e)) => if e.kind
            == IoErrorKind::Interrupted {
            r == (ResponseProgress::Read { task, max: (len - body@.len()) as usize })
        } else {
            r == ResponseProgress::Done(Err(Error::Io(e)))
        },
        (_, Err(e)) => r == ResponseProgress::Done(Err(Error::Io(e))),
        (ResponseTask::Head { buf }, Ok(data)) => if data.len() == 0 {
            r == ResponseProgress::Done(Err(Error::ConnectionClosed))
        } else {
            head_leads_to(buf@ + data, r)
        },
        (ResponseTask::Chunked { head, reader }, Ok(data)) => if data.len() == 0 {
            match chunks_end(reader.model()) {
                Ok(body) => completed(head, body, head.keep_alive, r),
                Err(e) => r == ResponseProgress::Done(Err(e)),
            }
        } else {
            chunks_lead_to(
                head,
                ChunkModel { rest: reader.model().rest + data, ..reader.model() },
                r,
            )
        },
        (ResponseTask::Fixed { head, body, len }, Ok(data)) => if data.len() == 0 {
            &&& r matches ResponseProgress::Done(Err(Error::Io(e)))
            &&& e.kind == IoErrorKind::UnexpectedEof
            &&& e.message@ == "failed to fill whole buffer"@
        } else {
            fixed_leads_to(head, body@ + data, len, r)
        },
        (ResponseTask::ToEnd { head, body }, Ok(data)) => {
            let all = body@ + data;
            if data.len() == 0 {
                completed(head, body@, false, r)
            } else if all.len() > MAX_RESPONSE_BODY {
                r == ResponseProgress::Done(Err(Error::ResponseTooLarge(all.len() as usize)))
            } else {
                &&& r matches ResponseProgress::Read {
                    task: ResponseTask::ToEnd { head: h, body: b },
                    max,
                }
                &&& h == head
                &&& b@ == all
                &&& max == READ_SIZE
            }
        },
    }
}

fn complete(head: ResponseHead, body: Vec<u8>, keep_alive: bool) -> (r: ResponseProgress)
    ensures
        completed(head, body@, keep_alive, r),
{
    match decode_text(body.as_slice()) {
        Ok(text) => ResponseProgress::Done(
            Ok(
                Response {
                    status: head.status,
                    retry_after: head.retry_after,
                    body: text.to_string(),
                    keep_alive,
                },
            ),
        ),
        Err(_) => ResponseProgress::Done(Err(Error::InvalidUtf8)),
    }
}

/// Go on with a chunked body.
pub fn read_chunked_body(head: ResponseHead, reader: ChunkReader) -> (r: ResponseProgress)
    requires
        reader.wf(),
    ensures
        chunks_lead_to(head, reader.model(), r),
{
    let mut reader = reader;
    match reader.run() {
        ChunkStop::More => ResponseProgress::Read {
            task: ResponseTask::Chunked { head, reader },
            max: READ_SIZE,
        },
        ChunkStop::Done => {
            let keep_alive: bool = head.keep_alive;
            complete(head, reader.into_body(), keep_alive)
        },
        ChunkStop::Fail(e) => ResponseProgress::Done(Err(e)),
    }
}

/// Go on with a body of known length, of which `body` is here.
pub fn read_fixed_body(head: ResponseHead, body: Vec<u8>, len: usize) -> (r: ResponseProgress)
    ensures
        fixed_leads_to(head, body@, len, r),
{
    if len > MAX_RESPONSE_BODY {
        return ResponseProgress::Done(Err(Error::ResponseTooLarge(len)));
    }
    let mut body = body;
    if body.len() < len {
        let max: usize = len - body.len();
        ResponseProgress::Read { task: ResponseTask::Fixed { head, body, len }, max }
    } else {
        let ghost have = body@;
        body.truncate(len);
        assert(body@ =~= have.take(len as int));
        let keep_alive: bool = head.keep_alive;
        complete(head, body, keep_alive)
    }
}

fn read_body(head: ResponseHead, leftover: Vec<u8>) -> (r: ResponseProgress)
    ensures
        body_leads_to(head, leftover@, r),
{
    if head.chunked {
        return read_chunked_body(head, ChunkReader::new(leftover));
    }
    if let Some(len) = head.content_length {
        return read_fixed_body(head, leftover, len);
    }
    if head.status == 204 || head.status == 304 {
        let none: Vec<u8> = Vec::new();
        assert(none@ =~= Seq::<u8>::empty());
        let keep_alive: bool = head.keep_alive;
        return complete(head, none, keep_alive);
    }
    ResponseProgress::Read { task: ResponseTask::ToEnd { head, body: leftover }, max: READ_SIZE }
}

fn read_head(buf: Vec<u8>) -> (r: ResponseProgress)
    ensures
        head_leads_to(buf@, r),
{
    let pat: [u8; 4] = [13u8, 10u8, 13u8, 10u8];
    assert(pat@ =~= head_end());
    assert(buf@.skip(0) =~= buf@);
    match find_subslice(buf.as_slice(), &pat, 0) {
        Some(end) => {
            let head = slice_subrange(buf.as_slice(), 0, end);
            assert(head@ =~= buf@.take(end as int));
            assert(end + 4 <= buf.len());
            match parse_head(head) {
                Err(e) => ResponseProgress::Done(Err(e)),
                Ok(head) => {
                    let leftover = slice_to_vec(
                        slice_subrange(buf.as_slice(), end + 4, buf.len()),
                    );
                    assert(leftover@ =~= buf@.skip(end + 4));
                    let ghost h = head;
                    let r = read_body(head, leftover);
                    assert(h.fields() == h.fields() && body_leads_to(h, buf@.skip(end + 4), r));
                    r
                },
            }
        },
        None => {
            if buf.len() > MAX_RESPONSE_HEAD {
                return ResponseProgress::Done(Err(Error::HeadersTooLarge));
            }
            ResponseProgress::Read { task: ResponseTask::Head { buf }, max: READ_SIZE }
        },
    }
}

/// The bytes of a read, as a value.
pub open spec fn input_of(input: Result<&[u8], IoError>) -> Result<Seq<u8>, IoError> {
    match input {
        Ok(data) => Ok(data@),
        Err(e) => Err(e),
    }
}

impl ResponseTask {
    /// Begin to read a response.
    pub fn new() -> (r: Self)
        ensures
            r.wf(),
            r matches ResponseTask::Head { buf } && buf@ == Seq::<u8>::empty(),
    {
        ResponseTask::Head { buf: Vec::new() }
    }

    /// Go on reading a response, given the outcome of a read.
    pub fn resume(self, input: Result<&[u8], IoError>) -> (r: ResponseProgress)
        requires
            self.wf(),
            input matches Ok(data) ==> data@.len() <= self.max(),
        ensures
            response_resumes(self, input_of(input), r),
            r matches ResponseProgress::Read { task, max } ==> task.wf() && max == task.max(),
    {
        let data = match input {
            Err(e) => {
                if let ResponseTask::Fixed { head, body, len } = self {
                    if e.kind == IoErrorKind::Interrupted {
                        let max: usize = len - body.len();
                        return ResponseProgress::Read {
                            task: ResponseTask::Fixed { head, body, len },
                            max,
                        };
                    }
                }
                return ResponseProgress::Done(Err(Error::Io(e)));
            },
            Ok(data) => data,
        };
        match self {
            ResponseTask::Head { buf } => {
                if data.len() == 0 {
                    return ResponseProgress::Done(Err(Error::ConnectionClosed));
                }
                let mut buf = buf;
                push_bytes(&mut buf, data);
                read_head(buf)
            },
            ResponseTask::Chunked { head, reader } => {
                if data.len() == 0 {
                    return match reader.end() {
                        Ok(body) => {
                            let keep_alive: bool = head.keep_alive;
                            complete(head, body, keep_alive)
                        },
                        Err(e) => ResponseProgress::Done(Err(e)),
                    };
                }
                let mut reader = reader;
                reader.feed(data);
                read_chunked_body(head, reader)
            },
            ResponseTask::Fixed { head, body, len } => {
                if data.len() == 0 {
                    return ResponseProgress::Done(
                        Err(
                            Error::Io(
                                IoError {
                                    kind: IoErrorKind::UnexpectedEof,
                                    message: "failed to fill whole buffer".to_string(),
                                },
                            ),
                        ),
                    );
                }
                let mut body = body;
                push_bytes(&mut body, data);
                read_fixed_body(head, body, len)
            },
            ResponseTask::ToEnd { head, body } => {
                if data.len() == 0 {
                    return complete(head, body, false);
                }
                let mut body = body;
                push_bytes(&mut body, data);
                if body.len() > MAX_RESPONSE_BODY {
                    return ResponseProgress::Done(Err(Error::ResponseTooLarge(body.len())));
                }
                ResponseProgress::Read {
                    task: ResponseTask::ToEnd { head, body },
                    max: READ_SIZE,
                }
            },
        }
    }
}

/// An exchange: what is to be written, and how the response is to be read.
#[derive(Debug)]
pub struct Exchange {
    pub request: Vec<u8>,
    pub response: ResponseTask,
}

/// Begin an exchange with the API: the request is to be written and the stream
/// flushed, then the response is to be read.
pub fn send_and_read(
    token: &str,
    user_agent: &str,
    method: Method,
    path: &str,
    body: Option<&str>,
) -> (r: Exchange)
    ensures
        r.request@ == request_head(method, path@, token@, user_agent@) + request_rest(
            opt_str(body),
        ),
        r.response.wf(),
        r.response matches ResponseTask::Head { buf } && buf@ == Seq::<u8>::empty(),
{
    Exchange {
        request: request_bytes(method, path, token, user_agent, body),
        response: ResponseTask::new(),
    }
}

} // verus!
