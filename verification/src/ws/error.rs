//! Errors of the WebSocket client.
use vstd::prelude::*;

use crate::ext::Utf8Error;
use crate::text::{decimal, lower_hex, push_hex, with_number, with_str};
use crate::ws::io::{IoError, IoErrorKind};
use crate::ws::read_buf::{FillError, ReadUntilError};

verus! {

/// Actionable error from a WebSocket operation.
#[derive(Debug)]
pub enum Error {
    /// The connection is dead or protocol-violated.  Might get fixed by
    /// reconnecting.
    Reconnect(ConnectionError),
    /// Caller error.  Reconnecting will not help.
    Fatal(CallerError),
}

/// Connection-level error.  The connection is dead or protocol-violated; the
/// caller should reconnect.
#[derive(Debug)]
#[non_exhaustive]
pub enum ConnectionError {
    /// I/O error on the underlying stream.
    Io(IoError),
    /// The peer closed the connection (end of stream).
    Closed,
    /// Response headers exceeded the size limit.
    HeadersTooLarge,
    /// Server did not respond with HTTP 101.
    BadStatus,
    /// Missing `Sec-WebSocket-Accept` header.
    MissingAccept,
    /// Invalid `Sec-WebSocket-Accept` value.
    BadAccept,
    /// Non-zero reserved bits in a frame header.
    BadReservedBits(u8),
    /// Frame payload exceeds the configured maximum.
    PayloadTooLarge(u64),
    /// Continuation frame without a preceding data frame.
    UnexpectedContinuation,
    /// Reassembled fragmented message exceeds the configured maximum.
    FragmentedMessageTooLarge(usize),
    /// Text frame or close reason is not valid UTF-8.
    InvalidUtf8(Utf8Error),
    /// New data frame received while a fragmented message is in progress.
    DataDuringFragmentation,
    /// Control frame with FIN bit unset.
    FragmentedControl,
    /// Control frame payload exceeds 125 bytes.
    ControlPayloadTooLarge(usize),
    /// Close frame payload is 1 byte (must be 0 or >= 2).
    BadClosePayload,
    /// Unrecognized frame opcode.
    UnknownOpcode(u8),
    /// Extended length field uses more bytes than necessary.
    NonMinimalLength,
    /// 64-bit payload length has the most significant bit set.
    PayloadLengthMsb,
    /// Missing or invalid `Upgrade: websocket` header.
    MissingUpgrade,
    /// Missing or invalid `Connection: Upgrade` header.
    MissingConnection,
    /// Close status code is not valid per RFC 6455 section 7.4.
    InvalidCloseCode(u16),
    /// Server sent a masked frame (clients must not receive masked frames).
    MaskedServerFrame,
    /// Too many frames arrived faster than they could trickle in.
    Flood,
    /// Server selected a subprotocol that was not offered by the client, or
    /// selected one when the client did not ask.
    InvalidSubprotocol,
    /// No frame was received before the ping deadline.
    PingTimeout,
}

/// Caller-side error.  Reconnecting will not help.
#[derive(Debug)]
#[non_exhaustive]
pub enum CallerError {
    /// The connection is closing; no further operations are allowed.
    Closing,
    /// Host, path or a header holds a character that it must not hold.
    InvalidHeaderValue,
    /// Close code is not valid for sending (RFC 6455 section 7.4).
    InvalidCloseCode(u16),
    /// Close reason exceeds 123 bytes.
    CloseReasonTooLong(usize),
}

impl ConnectionError {
    /// Whether the stream merely had nothing to offer in time.
    pub open spec fn spec_is_would_block(self) -> bool {
        self matches ConnectionError::Io(e) && e.spec_is_would_block()
    }

    /// Whether the stream merely had nothing to offer in time.
    pub fn is_would_block(&self) -> (r: bool)
        ensures
            r == self.spec_is_would_block(),
    {
        match self {
            ConnectionError::Io(e) => e.is_would_block(),
            _ => false,
        }
    }
}

impl Error {
    /// Whether the stream merely had nothing to offer in time.
    pub open spec fn spec_is_would_block(self) -> bool {
        self matches Error::Reconnect(e) && e.spec_is_would_block()
    }

    /// Whether the stream merely had nothing to offer in time.
    pub fn is_would_block(&self) -> (r: bool)
        ensures
            r == self.spec_is_would_block(),
    {
        match self {
            Error::Reconnect(e) => e.is_would_block(),
            Error::Fatal(_) => false,
        }
    }
}

/// A would-block error that says no more than that.
pub open spec fn is_bare_would_block(e: IoError) -> bool {
    e.kind == IoErrorKind::WouldBlock && e.message@ == "operation would block"@
}

/// The connection error that a failed fill comes to.
pub open spec fn fill_error_means(e: FillError, r: ConnectionError) -> bool {
    match e {
        FillError::Eof => r == ConnectionError::Closed,
        FillError::Io(e) => r == ConnectionError::Io(e),
        FillError::WouldBlock => r matches ConnectionError::Io(e) && is_bare_would_block(e),
    }
}

/// The connection error that a failed fill comes to.
pub fn fill_error(e: FillError) -> (r: ConnectionError)
    ensures
        fill_error_means(e, r),
{
    match e {
        FillError::Eof => ConnectionError::Closed,
        FillError::Io(e) => ConnectionError::Io(e),
        FillError::WouldBlock => ConnectionError::Io(would_block()),
    }
}

/// A bare would-block error.
fn would_block() -> (e: IoError)
    ensures
        is_bare_would_block(e),
{
    IoError { kind: IoErrorKind::WouldBlock, message: "operation would block".to_string() }
}

/// The connection error that a failed header search comes to: reaching the
/// limit means that the headers are too large.
pub open spec fn search_error_means(e: ReadUntilError<ConnectionError>, r: ConnectionError) -> bool {
    match e {
        ReadUntilError::Eof => r == ConnectionError::Closed,
        ReadUntilError::Io(e) => r == ConnectionError::Io(e),
        ReadUntilError::WouldBlock => r matches ConnectionError::Io(e) && is_bare_would_block(e),
        ReadUntilError::LimitReached => r == ConnectionError::HeadersTooLarge,
        ReadUntilError::CallbackError(e) => r == e,
    }
}

/// The connection error that a failed header search comes to.
pub fn search_error(e: ReadUntilError<ConnectionError>) -> (r: ConnectionError)
    ensures
        search_error_means(e, r),
{
    match e {
        ReadUntilError::Eof => ConnectionError::Closed,
        ReadUntilError::Io(e) => ConnectionError::Io(e),
        ReadUntilError::WouldBlock => ConnectionError::Io(would_block()),
        ReadUntilError::LimitReached => ConnectionError::HeadersTooLarge,
        ReadUntilError::CallbackError(e) => e,
    }
}

impl ConnectionError {
    /// What the error says.
    pub open spec fn text(self) -> Seq<char> {
        match self {
            ConnectionError::Io(e) => "IO: "@ + e.message@,
            ConnectionError::BadReservedBits(bits) => "non-zero RSV bits: 0x"@ + lower_hex(bits),
            ConnectionError::InvalidUtf8(e) => "invalid UTF-8 in text frame at "@ + decimal(
                e.valid_up_to as nat,
            ),
            ConnectionError::PayloadTooLarge(n) => "frame payload too large: "@ + decimal(n as nat) + " bytes"@,
            ConnectionError::FragmentedMessageTooLarge(n) => "fragmented message too large: "@ + decimal(n as nat) + " bytes"@,
            ConnectionError::ControlPayloadTooLarge(n) => "control frame payload too large: "@ + decimal(n as nat),
            ConnectionError::UnknownOpcode(n) => "unknown opcode: "@ + decimal(n as nat),
            ConnectionError::InvalidCloseCode(n) => "invalid close code: "@ + decimal(n as nat),
            ConnectionError::Closed => "connection closed"@,
            ConnectionError::HeadersTooLarge => "response headers too large"@,
            ConnectionError::BadStatus => "expected HTTP 101"@,
            ConnectionError::MissingAccept => "missing Sec-WebSocket-Accept"@,
            ConnectionError::BadAccept => "invalid Sec-WebSocket-Accept"@,
            ConnectionError::UnexpectedContinuation => "unexpected continuation frame"@,
            ConnectionError::DataDuringFragmentation => "new data frame during fragmentation"@,
            ConnectionError::FragmentedControl => "fragmented control frame"@,
            ConnectionError::BadClosePayload => "close frame payload must be 0 or >= 2 bytes"@,
            ConnectionError::NonMinimalLength => "non-minimal payload length encoding"@,
            ConnectionError::PayloadLengthMsb => "64-bit payload length has MSB set (RFC 6455 §5.2)"@,
            ConnectionError::MissingUpgrade => "missing or invalid Upgrade header"@,
            ConnectionError::MissingConnection => "missing or invalid Connection header"@,
            ConnectionError::MaskedServerFrame => "server sent a masked frame"@,
            ConnectionError::Flood => "frame flood detected"@,
            ConnectionError::InvalidSubprotocol => "server selected an unrequested subprotocol"@,
            ConnectionError::PingTimeout => "ping timeout: no response by deadline"@,
        }
    }

    /// What the error says.
    pub fn message(&self) -> (r: String)
        ensures
            r@ == self.text(),
    {
        match self {
            ConnectionError::Io(e) => with_str("IO: ", e.message.as_str()),
            ConnectionError::BadReservedBits(bits) => {
                let mut r = "non-zero RSV bits: 0x".to_string();
                push_hex(&mut r, *bits);
                r
            },
            ConnectionError::InvalidUtf8(e) => with_number(
                "invalid UTF-8 in text frame at ",
                e.valid_up_to as u64,
            ),
            ConnectionError::PayloadTooLarge(n) => {
                let mut r = with_number("frame payload too large: ", *n as u64);
                r.append(" bytes");
                r
            },
            ConnectionError::FragmentedMessageTooLarge(n) => {
                let mut r = with_number("fragmented message too large: ", *n as u64);
                r.append(" bytes");
                r
            },
            ConnectionError::ControlPayloadTooLarge(n) => with_number("control frame payload too large: ", *n as u64),
            ConnectionError::UnknownOpcode(n) => with_number("unknown opcode: ", *n as u64),
            ConnectionError::InvalidCloseCode(n) => with_number("invalid close code: ", *n as u64),
            ConnectionError::Closed => "connection closed".to_string(),
            ConnectionError::HeadersTooLarge => "response headers too large".to_string(),
            ConnectionError::BadStatus => "expected HTTP 101".to_string(),
            ConnectionError::MissingAccept => "missing Sec-WebSocket-Accept".to_string(),
            ConnectionError::BadAccept => "invalid Sec-WebSocket-Accept".to_string(),
            ConnectionError::UnexpectedContinuation => "unexpected continuation frame".to_string(),
            ConnectionError::DataDuringFragmentation => "new data frame during fragmentation".to_string(),
            ConnectionError::FragmentedControl => "fragmented control frame".to_string(),
            ConnectionError::BadClosePayload => "close frame payload must be 0 or >= 2 bytes".to_string(),
            ConnectionError::NonMinimalLength => "non-minimal payload length encoding".to_string(),
            ConnectionError::PayloadLengthMsb => "64-bit payload length has MSB set (RFC 6455 §5.2)".to_string(),
            ConnectionError::MissingUpgrade => "missing or invalid Upgrade header".to_string(),
            ConnectionError::MissingConnection => "missing or invalid Connection header".to_string(),
            ConnectionError::MaskedServerFrame => "server sent a masked frame".to_string(),
            ConnectionError::Flood => "frame flood detected".to_string(),
            ConnectionError::InvalidSubprotocol => "server selected an unrequested subprotocol".to_string(),
            ConnectionError::PingTimeout => "ping timeout: no response by deadline".to_string(),
        }
    }
}

impl CallerError {
    /// What the error says.
    pub open spec fn text(self) -> Seq<char> {
        match self {
            CallerError::Closing => "connection is closing"@,
            CallerError::InvalidHeaderValue => "invalid character in header value"@,
            CallerError::InvalidCloseCode(code) => "invalid close code: "@ + decimal(code as nat),
            CallerError::CloseReasonTooLong(len) => "close reason too long: "@ + decimal(
                len as nat,
            ) + " bytes (max 123)"@,
        }
    }

    /// What the error says.
    pub fn message(&self) -> (r: String)
        ensures
            r@ == self.text(),
    {
        match self {
            CallerError::Closing => "connection is closing".to_string(),
            CallerError::InvalidHeaderValue => "invalid character in header value".to_string(),
            CallerError::InvalidCloseCode(code) => with_number(
                "invalid close code: ",
                *code as u64,
            ),
            CallerError::CloseReasonTooLong(len) => {
                let mut r = with_number("close reason too long: ", *len as u64);
                r.append(" bytes (max 123)");
                r
            },
        }
    }
}

impl Error {
    /// What the error says; the inner error says more.
    pub open spec fn text(self) -> Seq<char> {
        match self {
            Error::Reconnect(_) => "connection error"@,
            Error::Fatal(_) => "caller error"@,
        }
    }

    /// What the error says; the inner error says more.
    pub fn message(&self) -> (r: String)
        ensures
            r@ == self.text(),
    {
        match self {
            Error::Reconnect(_) => "connection error".to_string(),
            Error::Fatal(_) => "caller error".to_string(),
        }
    }
}

impl From<IoError> for ConnectionError {
    fn from(e: IoError) -> (r: Self) {
        ConnectionError::Io(e)
    }
}

impl vstd::std_specs::convert::FromSpecImpl<IoError> for ConnectionError {
    open spec fn obeys_from_spec() -> bool {
        true
    }

    open spec fn from_spec(e: IoError) -> Self {
        ConnectionError::Io(e)
    }
}

impl From<Utf8Error> for ConnectionError {
    fn from(e: Utf8Error) -> (r: Self) {
        ConnectionError::InvalidUtf8(e)
    }
}

impl vstd::std_specs::convert::FromSpecImpl<Utf8Error> for ConnectionError {
    open spec fn obeys_from_spec() -> bool {
        true
    }

    open spec fn from_spec(e: Utf8Error) -> Self {
        ConnectionError::InvalidUtf8(e)
    }
}

impl From<ConnectionError> for Error {
    fn from(e: ConnectionError) -> (r: Self) {
        Error::Reconnect(e)
    }
}

impl vstd::std_specs::convert::FromSpecImpl<ConnectionError> for Error {
    open spec fn obeys_from_spec() -> bool {
        true
    }

    open spec fn from_spec(e: ConnectionError) -> Self {
        Error::Reconnect(e)
    }
}

impl From<CallerError> for Error {
    fn from(e: CallerError) -> (r: Self) {
        Error::Fatal(e)
    }
}

impl vstd::std_specs::convert::FromSpecImpl<CallerError> for Error {
    open spec fn obeys_from_spec() -> bool {
        true
    }

    open spec fn from_spec(e: CallerError) -> Self {
        Error::Fatal(e)
    }
}

impl From<IoError> for Error {
    fn from(e: IoError) -> (r: Self) {
        Error::Reconnect(ConnectionError::Io(e))
    }
}

impl vstd::std_specs::convert::FromSpecImpl<IoError> for Error {
    open spec fn obeys_from_spec() -> bool {
        true
    }

    open spec fn from_spec(e: IoError) -> Self {
        Error::Reconnect(ConnectionError::Io(e))
    }
}

impl From<Utf8Error> for Error {
    fn from(e: Utf8Error) -> (r: Self) {
        Error::Reconnect(ConnectionError::InvalidUtf8(e))
    }
}

impl vstd::std_specs::convert::FromSpecImpl<Utf8Error> for Error {
    open spec fn obeys_from_spec() -> bool {
        true
    }

    open spec fn from_spec(e: Utf8Error) -> Self {
        Error::Reconnect(ConnectionError::InvalidUtf8(e))
    }
}

impl ConnectionError {
    /// What the error that caused this one says.
    pub open spec fn cause(self) -> Option<Seq<char>> {
        match self {
            ConnectionError::Io(e) => Some(e.message@),
            ConnectionError::InvalidUtf8(e) => Some(
                match e.error_len {
                    Some(n) => "invalid utf-8 sequence of "@ + decimal(n as nat)
                        + " bytes from index "@ + decimal(e.valid_up_to as nat),
                    None => "incomplete utf-8 byte sequence from index "@ + decimal(
                        e.valid_up_to as nat,
                    ),
                },
            ),
            _ => None,
        }
    }

    /// What the error that caused this one says.
    pub fn source(&self) -> (r: Option<String>)
        ensures
            match r {
                Some(s) => self.cause() == Some(s@),
                None => self.cause() is None,
            },
    {
        match self {
            ConnectionError::Io(e) => Some(e.message.clone()),
            ConnectionError::InvalidUtf8(e) => Some(
                match e.error_len {
                    Some(n) => {
                        let mut r = with_number("invalid utf-8 sequence of ", n as u64);
                        let place = with_number(" bytes from index ", e.valid_up_to as u64);
                        r.append(place.as_str());
                        assert(r@ =~= self.cause()->0);
                        r
                    },
                    None => with_number(
                        "incomplete utf-8 byte sequence from index ",
                        e.valid_up_to as u64,
                    ),
                },
            ),
            _ => None,
        }
    }
}

impl CallerError {
    /// What the error that caused this one says: nothing did.
    pub fn source(&self) -> (r: Option<String>)
        ensures
            r is None,
    {
        None
    }
}

impl Error {
    /// What the error that caused this one says.
    pub open spec fn cause(self) -> Option<Seq<char>> {
        match self {
            Error::Reconnect(e) => Some(e.text()),
            Error::Fatal(e) => Some(e.text()),
        }
    }

    /// What the error that caused this one says.
    pub fn source(&self) -> (r: Option<String>)
        ensures
            match r {
                Some(s) => self.cause() == Some(s@),
                None => self.cause() is None,
            },
    {
        match self {
            Error::Reconnect(e) => Some(e.message()),
            Error::Fatal(e) => Some(e.message()),
        }
    }
}

} // verus!
