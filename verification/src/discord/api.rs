//! The REST API: what each call sends, what its answer means, and when a
//! request is tried again.
use vstd::prelude::*;
use vstd::utf8::encode_utf8;

use crate::discord::error::Error;
use crate::discord::http::Method;
use crate::json::{field_text, json_field, json_string, json_text_field, quote_json};
use crate::text::{
    chars_of, decimal, digit, parse_number, parse_u64, string_of_range, with_number, with_str,
};

verus! {

/// How often a request is tried.
pub const MAX_ATTEMPTS: u32 = 4;

/// The upper-case hexadecimal digit for a number below sixteen.
pub open spec fn upper_hex(n: int) -> char {
    if n < 10 {
        digit(n)
    } else if n == 10 {
        'A'
    } else if n == 11 {
        'B'
    } else if n == 12 {
        'C'
    } else if n == 13 {
        'D'
    } else if n == 14 {
        'E'
    } else {
        'F'
    }
}

/// Bytes that stand for themselves in a path segment.
pub open spec fn is_path_byte(b: u8) -> bool {
    ||| 65 <= b <= 90
    ||| 97 <= b <= 122
    ||| 48 <= b <= 57
    ||| b == 45
    ||| b == 95
    ||| b == 46
    ||| b == 126
    ||| b == 58
    ||| b == 64
}

/// A byte in a path segment.
pub open spec fn percent_byte(b: u8) -> Seq<char> {
    if is_path_byte(b) {
        seq![b as char]
    } else {
        seq!['%', upper_hex(b as int / 16), upper_hex(b as int % 16)]
    }
}

/// Bytes in a path segment.
pub open spec fn percent_bytes(s: Seq<u8>) -> Seq<char>
    decreases s.len(),
{
    if s.len() == 0 {
        Seq::empty()
    } else {
        percent_bytes(s.drop_last()) + percent_byte(s.last())
    }
}

fn upper_hex_char(n: u8) -> (c: char)
    requires
        n < 16,
    ensures
        c == upper_hex(n as int),
{
    if n == 0 {
        '0'
    } else if n == 1 {
        '1'
    } else if n == 2 {
        '2'
    } else if n == 3 {
        '3'
    } else if n == 4 {
        '4'
    } else if n == 5 {
        '5'
    } else if n == 6 {
        '6'
    } else if n == 7 {
        '7'
    } else if n == 8 {
        '8'
    } else if n == 9 {
        '9'
    } else if n == 10 {
        'A'
    } else if n == 11 {
        'B'
    } else if n == 12 {
        'C'
    } else if n == 13 {
        'D'
    } else if n == 14 {
        'E'
    } else {
        'F'
    }
}

/// Percent-encode a string for use as a path segment.
pub fn percent_encode(s: &str) -> (r: String)
    ensures
        r@ == percent_bytes(encode_utf8(s@)),
{
    let bytes = s.as_bytes();
    let mut out = String::new();
    let mut i: usize = 0;
    while i < bytes.len()
        invariant
            i <= bytes@.len(),
            out@ == percent_bytes(bytes@.take(i as int)),
        decreases bytes@.len() - i,
    {
        let b: u8 = bytes[i];
        let ghost before = out@;
        if (65 <= b && b <= 90) || (97 <= b && b <= 122) || (48 <= b && b <= 57) || b == 45 || b
            == 95 || b == 46 || b == 126 || b == 58 || b == 64 {
            out.push(b as char);
        } else {
            out.push('%');
            out.push(upper_hex_char(b / 16));
            out.push(upper_hex_char(b % 16));
        }
        i = i + 1;
        proof {
            let done = bytes@.take(i as int);
            assert(done.drop_last() =~= bytes@.take(i - 1));
            assert(out@ =~= before + percent_byte(b));
        }
    }
    assert(bytes@.take(i as int) =~= bytes@);
    out
}

/// A request to the API.
#[derive(Debug)]
pub struct ApiRequest {
    pub method: Method,
    pub path: String,
    pub body: Option<String>,
}

/// Fails unless the status says that the request succeeded.
pub fn check_status(status: u16) -> (r: Result<(), Error>)
    ensures
        r == (if 200 <= status < 300 {
            Ok::<(), Error>(())
        } else {
            Err(Error::ApiError { status })
        }),
{
    if 200 <= status && status < 300 {
        Ok(())
    } else {
        Err(Error::ApiError { status })
    }
}

/// The path of a channel's messages.
pub open spec fn messages_path(channel_id: u64) -> Seq<char> {
    "/api/v10/channels/"@ + decimal(channel_id as nat) + "/messages"@
}

/// The path of a message.
pub open spec fn message_path(channel_id: u64, message_id: u64) -> Seq<char> {
    messages_path(channel_id) + "/"@ + decimal(message_id as nat)
}

/// The path of a guild member's role.
pub open spec fn role_path(guild_id: u64, user_id: u64, role_id: u64) -> Seq<char> {
    "/api/v10/guilds/"@ + decimal(guild_id as nat) + "/members/"@ + decimal(user_id as nat)
        + "/roles/"@ + decimal(role_id as nat)
}

/// A message body.
pub open spec fn content_body(content: Seq<char>) -> Seq<char> {
    "{\"content\":"@ + json_string(content) + "}"@
}

fn messages_path_of(channel_id: u64) -> (r: String)
    ensures
        r@ == messages_path(channel_id),
{
    let mut r = with_number("/api/v10/channels/", channel_id);
    r.append("/messages");
    r
}

fn message_path_of(channel_id: u64, message_id: u64) -> (r: String)
    ensures
        r@ == message_path(channel_id, message_id),
{
    let mut r = messages_path_of(channel_id);
    r.append("/");
    with_number(r.as_str(), message_id)
}

fn role_path_of(guild_id: u64, user_id: u64, role_id: u64) -> (r: String)
    ensures
        r@ == role_path(guild_id, user_id, role_id),
{
    let mut r = with_number("/api/v10/guilds/", guild_id);
    r.append("/members/");
    let mut r = with_number(r.as_str(), user_id);
    r.append("/roles/");
    with_number(r.as_str(), role_id)
}

fn content_body_of(content: &str) -> (r: String)
    ensures
        r@ == content_body(content@),
{
    let mut r = with_str("{\"content\":", quote_json(content).as_str());
    r.append("}");
    r
}

/// Discord REST API calls.
pub struct HttpApi;

impl HttpApi {
    /// Post a message to a channel.
    pub fn send_message(channel_id: u64, content: &str) -> (r: ApiRequest)
        ensures
            r.method == Method::Post,
            r.path@ == messages_path(channel_id),
            r.body matches Some(body) && body@ == content_body(content@),
    {
        ApiRequest {
            method: Method::Post,
            path: messages_path_of(channel_id),
            body: Some(content_body_of(content)),
        }
    }

    /// The answer to [`send_message`](Self::send_message): the new message's
    /// ID, if the response holds one.
    pub fn message_sent(status: u16, body: &str) -> (r: Result<Option<u64>, Error>)
        ensures
            if !(200 <= status < 300) {
                r == Err::<Option<u64>, Error>(Error::ApiError { status })
            } else {
                posted_id(json_text_field(body@, "id"@), r)
            },
    {
        match check_status(status) {
            Ok(()) => {},
            Err(e) => {
                return Err(e);
            },
        }
        posted_message_id(json_field(body, "id"))
    }

    /// Replace a message's content.
    pub fn edit_message(channel_id: u64, message_id: u64, content: &str) -> (r: ApiRequest)
        ensures
            r.method == Method::Patch,
            r.path@ == message_path(channel_id, message_id),
            r.body matches Some(body) && body@ == content_body(content@),
    {
        ApiRequest {
            method: Method::Patch,
            path: message_path_of(channel_id, message_id),
            body: Some(content_body_of(content)),
        }
    }

    /// Add a reaction to a message.  The emoji is percent-encoded.
    pub fn add_reaction(channel_id: u64, message_id: u64, emoji: &str) -> (r: ApiRequest)
        ensures
            r.method == Method::Put,
            r.path@ == message_path(channel_id, message_id) + "/reactions/"@ + percent_bytes(
                encode_utf8(emoji@),
            ) + "/@me"@,
            r.body is None,
    {
        let mut path = message_path_of(channel_id, message_id);
        path.append("/reactions/");
        path.append(percent_encode(emoji).as_str());
        path.append("/@me");
        ApiRequest { method: Method::Put, path, body: None }
    }

    /// Ask for the gateway's WebSocket URL.
    pub fn get_gateway_url() -> (r: ApiRequest)
        ensures
            r.method == Method::Get,
            r.path@ == "/api/v10/gateway/bot"@,
            r.body is None,
    {
        ApiRequest {
            method: Method::Get,
            path: "/api/v10/gateway/bot".to_string(),
            body: None,
        }
    }

    /// The URL to connect to, given the one that the API answered with: API
    /// version and encoding are added.
    pub fn gateway_url(answered: &str) -> (r: String)
        ensures
            r@ == without_slashes(answered@) + "/?v=10&encoding=json"@,
    {
        let chars = chars_of(answered);
        let mut end: usize = chars.len();
        assert(chars@.take(end as int) =~= chars@);
        while end > 0 && chars[end - 1] == '/'
            invariant
                end <= chars@.len(),
                without_slashes(chars@.take(end as int)) == without_slashes(chars@),
            decreases end,
        {
            assert(chars@.take(end as int).drop_last() =~= chars@.take(end - 1));
            end = end - 1;
        }
        assert(chars@.subrange(0, end as int) =~= chars@.take(end as int));
        let mut r = string_of_range(chars.as_slice(), 0, end);
        r.append("/?v=10&encoding=json");
        r
    }

    /// Assign a role to a guild member.
    pub fn add_role(guild_id: u64, user_id: u64, role_id: u64) -> (r: ApiRequest)
        ensures
            r.method == Method::Put,
            r.path@ == role_path(guild_id, user_id, role_id),
            r.body is None,
    {
        ApiRequest {
            method: Method::Put,
            path: role_path_of(guild_id, user_id, role_id),
            body: None,
        }
    }

    /// Remove a role from a guild member.
    pub fn remove_role(guild_id: u64, user_id: u64, role_id: u64) -> (r: ApiRequest)
        ensures
            r.method == Method::Delete,
            r.path@ == role_path(guild_id, user_id, role_id),
            r.body is None,
    {
        ApiRequest {
            method: Method::Delete,
            path: role_path_of(guild_id, user_id, role_id),
            body: None,
        }
    }
}

/// A string without slashes at its end.
pub open spec fn without_slashes(s: Seq<char>) -> Seq<char>
    decreases s.len(),
{
    if s.len() > 0 && s.last() == '/' {
        without_slashes(s.drop_last())
    } else {
        s
    }
}

/// The message ID in an answer whose `id` is `field`: none if there is no such
/// string or it is no number; an answer that is not JSON is an error.
pub open spec fn posted_id(
    field: Result<Option<Seq<char>>, Seq<char>>,
    r: Result<Option<u64>, Error>,
) -> bool {
    match field {
        Err(message) => r matches Err(Error::Json(e)) && e@ == message,
        Ok(None) => r == Ok::<Option<u64>, Error>(None),
        Ok(Some(id)) => match parse_number(id, u64::MAX as nat) {
            Some(n) => r == Ok::<Option<u64>, Error>(Some(n as u64)),
            None => r == Ok::<Option<u64>, Error>(None),
        },
    }
}

/// The message ID in an answer whose `id` is `field`.
pub fn posted_message_id(field: Result<Option<String>, String>) -> (r: Result<Option<u64>, Error>)
    ensures
        posted_id(field_text(field), r),
{
    match field {
        Err(message) => Err(Error::Json(message)),
        Ok(None) => Ok(None),
        Ok(Some(id)) => Ok(parse_u64(id.as_str())),
    }
}

/// A request that is being tried.
#[derive(Debug, Clone, Copy, PartialEq, Eq, Structural)]
pub struct RequestTask {
    pub method: Method,
    /// Attempts that were answered.
    pub attempt: u32,
    /// Whether this attempt was already repeated on a fresh connection.
    pub retried: bool,
}

/// What is to be done next.
#[derive(Debug)]
pub enum RequestStep {
    /// Send the request and read the response, on a fresh connection if so
    /// said, else on the one that is open, or on a new one.
    Exchange { fresh: bool },
    /// Wait as long as the response says: a second if it does not, and no
    /// longer than a minute.
    WaitAsTold,
    Wait { seconds: u64 },
    /// Status and body of the answer, or the error.
    Done(Result<(u16, String), Error>),
}

/// What resumes a request.
#[derive(Debug)]
pub enum RequestEvent {
    Begin,
    /// No connection could be opened.
    ConnectFailed(Error),
    /// Sending the request or reading the response failed.
    ExchangeFailed(Error),
    Answered { status: u16, body: String },
    Waited,
}

/// How long to wait after a server error: twice as long each time.
pub open spec fn backoff(attempt: u32) -> u64 {
    if attempt == 0 {
        1
    } else if attempt == 1 {
        2
    } else if attempt == 2 {
        4
    } else {
        8
    }
}

/// What an event does to a request, and what is to be done next.
pub open spec fn request_leads_to(
    t: RequestTask,
    event: RequestEvent,
    t1: RequestTask,
    step: RequestStep,
) -> bool {
    match event {
        RequestEvent::Begin => t1 == t && step == (RequestStep::Exchange { fresh: false }),
        RequestEvent::ConnectFailed(e) => t1 == t && step == RequestStep::Done(Err(e)),
        // The server may have acted on a request whose answer was lost.
        RequestEvent::ExchangeFailed(e) => if t.method.idempotent() && !t.retried {
            &&& t1 == (RequestTask { retried: true, ..t })
            &&& step == (RequestStep::Exchange { fresh: true })
        } else {
            t1 == t && step == RequestStep::Done(Err(e))
        },
        RequestEvent::Answered { status, body } => t1 == t && if status == 429 || status >= 500 {
            if t.attempt + 1 >= MAX_ATTEMPTS {
                step == RequestStep::Done(Err(Error::RetriesExhausted { status }))
            } else if status == 429 {
                step == RequestStep::WaitAsTold
            } else {
                step == (RequestStep::Wait { seconds: backoff(t.attempt) })
            }
        } else {
            step == RequestStep::Done(Ok((status, body)))
        },
        RequestEvent::Waited => {
            &&& t1 == (RequestTask { attempt: (t.attempt + 1) as u32, retried: false, ..t })
            &&& step == (RequestStep::Exchange { fresh: false })
        },
    }
}

impl RequestTask {
    pub fn new(method: Method) -> (r: Self)
        ensures
            r == (RequestTask { method, attempt: 0, retried: false }),
    {
        RequestTask { method, attempt: 0, retried: false }
    }

    /// An attempt has failed, perhaps because the connection was stale: it is
    /// repeated once on a fresh one, but only if repeating it does no harm.
    pub fn request_once(&mut self, failure: Error) -> (r: RequestStep)
        ensures
            request_leads_to(
                *old(self),
                RequestEvent::ExchangeFailed(failure),
                *final(self),
                r,
            ),
    {
        if !self.method.is_idempotent() || self.retried {
            return RequestStep::Done(Err(failure));
        }
        self.retried = true;
        RequestStep::Exchange { fresh: true }
    }

    /// Go on with a request.
    pub fn request(&mut self, event: RequestEvent) -> (r: RequestStep)
        requires
            event is Waited ==> old(self).attempt + 1 < MAX_ATTEMPTS,
        ensures
            request_leads_to(*old(self), event, *final(self), r),
            r is WaitAsTold || r is Wait ==> final(self).attempt + 1 < MAX_ATTEMPTS,
    {
        match event {
            RequestEvent::Begin => RequestStep::Exchange { fresh: false },
            RequestEvent::ConnectFailed(e) => RequestStep::Done(Err(e)),
            RequestEvent::ExchangeFailed(e) => self.request_once(e),
            RequestEvent::Answered { status, body } => {
                if status == 429 || status >= 500 {
                    if self.attempt >= MAX_ATTEMPTS - 1 {
                        return RequestStep::Done(Err(Error::RetriesExhausted { status }));
                    }
                    if status == 429 {
                        return RequestStep::WaitAsTold;
                    }
                    let seconds: u64 = if self.attempt == 0 {
                        1
                    } else if self.attempt == 1 {
                        2
                    } else if self.attempt == 2 {
                        4
                    } else {
                        8
                    };
                    return RequestStep::Wait { seconds };
                }
                RequestStep::Done(Ok((status, body)))
            },
            RequestEvent::Waited => {
                self.attempt = self.attempt + 1;
                self.retried = false;
                RequestStep::Exchange { fresh: false }
            },
        }
    }
}

/// A request that may have been acted on is never sent again, unless repeating
/// it does no harm.
pub proof fn law_lost_answer_is_not_retried(
    t: RequestTask,
    e: Error,
    t1: RequestTask,
    step: RequestStep,
)
    requires
        !t.method.idempotent(),
        request_leads_to(t, RequestEvent::ExchangeFailed(e), t1, step),
    ensures
        step == RequestStep::Done(Err(e)),
{
}

/// How many exchanges a request can still lead to.
pub open spec fn exchanges_left(t: RequestTask) -> int {
    2 * (MAX_ATTEMPTS - t.attempt) - (if t.retried {
        1int
    } else {
        0
    })
}

/// A request ends: every exchange after the first is one of at most eight.
pub proof fn law_retries_are_bounded(
    t: RequestTask,
    event: RequestEvent,
    t1: RequestTask,
    step: RequestStep,
)
    requires
        t.attempt < MAX_ATTEMPTS,
        !(event is Begin),
        event is Waited ==> t.attempt + 1 < MAX_ATTEMPTS,
        request_leads_to(t, event, t1, step),
        step is Exchange,
    ensures
        0 < exchanges_left(t1) < exchanges_left(t) <= 8,
        t1.attempt < MAX_ATTEMPTS,
{
}

/// The value of an upper-case hexadecimal digit.
pub open spec fn upper_hex_value(c: char) -> int {
    if '0' <= c <= '9' {
        c as int - '0' as int
    } else {
        c as int - 'A' as int + 10
    }
}

/// The bytes that a path segment stands for.
pub open spec fn percent_decoded(s: Seq<char>) -> Seq<u8>
    decreases s.len(),
{
    if s.len() == 0 {
        Seq::empty()
    } else if s[0] == '%' && s.len() >= 3 {
        seq![(upper_hex_value(s[1]) * 16 + upper_hex_value(s[2])) as u8] + percent_decoded(s.skip(3))
    } else {
        seq![s[0] as u8] + percent_decoded(s.skip(1))
    }
}

proof fn lemma_percent_front(s: Seq<u8>)
    requires
        s.len() > 0,
    ensures
        percent_bytes(s) == percent_byte(s[0]) + percent_bytes(s.skip(1)),
    decreases s.len(),
{
    if s.len() == 1 {
        assert(s.drop_last() =~= Seq::<u8>::empty());
        assert(s.skip(1) =~= Seq::<u8>::empty());
        assert(percent_bytes(s.drop_last()) =~= Seq::<char>::empty());
        assert(percent_bytes(s) =~= percent_byte(s[0]));
        assert(percent_byte(s[0]) + percent_bytes(s.skip(1)) =~= percent_byte(s[0]));
    } else {
        lemma_percent_front(s.drop_last());
        assert(s.drop_last().skip(1) =~= s.skip(1).drop_last());
        assert(percent_bytes(s) =~= percent_byte(s[0]) + percent_bytes(s.skip(1)));
    }
}

/// An encoded path segment stands for the bytes that were encoded.
pub proof fn law_percent_round_trip(s: Seq<u8>)
    ensures
        percent_decoded(percent_bytes(s)) == s,
    decreases s.len(),
{
    if s.len() > 0 {
        let b = s[0];
        let rest = percent_bytes(s.skip(1));
        let all = percent_bytes(s);
        lemma_percent_front(s);
        law_percent_round_trip(s.skip(1));
        if is_path_byte(b) {
            assert(all.skip(1) =~= rest);
            assert((b as char) as u8 == b);
            assert(all[0] == b as char);
        } else {
            assert(all.skip(3) =~= rest);
            assert(all[0] == '%' && all[1] == upper_hex(b as int / 16) && all[2] == upper_hex(
                b as int % 16,
            ));
        }
        assert(percent_decoded(all) =~= s);
    }
}

/// An encoded path segment holds nothing that could end it: only letters,
/// digits and `-_.~:@%`.
pub proof fn law_percent_output_is_plain(s: Seq<u8>)
    ensures
        forall|i: int|
            0 <= i < percent_bytes(s).len() ==> {
                let c = #[trigger] percent_bytes(s)[i];
                c == '%' || (c <= '\u{7f}' && is_path_byte(c as u8))
            },
    decreases s.len(),
{
    if s.len() > 0 {
        law_percent_output_is_plain(s.drop_last());
        let init = percent_bytes(s.drop_last());
        let last = percent_byte(s.last());
        let all = percent_bytes(s);
        assert forall|i: int| 0 <= i < all.len() implies {
            let c = #[trigger] all[i];
            c == '%' || (c <= '\u{7f}' && is_path_byte(c as u8))
        } by {
            if i < init.len() {
                assert(all[i] == init[i]);
            } else {
                assert(all[i] == last[i - init.len()]);
            }
        }
    }
}

} // verus!
