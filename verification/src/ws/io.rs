//! What a task asks of the stream, and what the stream answers.
use vstd::prelude::*;

verus! {

/// The kinds of stream error that the protocol tells apart.
#[derive(Debug, Clone, Copy, PartialEq, Eq, Structural)]
pub enum IoErrorKind {
    /// The call was interrupted by a signal and is to be made again.
    Interrupted,
    /// The call would block.
    WouldBlock,
    /// The stream's timeout expired.
    TimedOut,
    /// A write accepted no bytes.
    WriteZero,
    /// The stream ended too early.
    UnexpectedEof,
    /// Everything else.
    Other,
}

/// An error of the underlying stream.
#[derive(Debug)]
pub struct IoError {
    pub kind: IoErrorKind,
    pub message: String,
}

impl IoError {
    /// Whether the stream merely had nothing to offer in time.
    pub open spec fn spec_is_would_block(self) -> bool {
        self.kind == IoErrorKind::WouldBlock || self.kind == IoErrorKind::TimedOut
    }

    /// Whether the stream merely had nothing to offer in time.
    pub fn is_would_block(&self) -> (r: bool)
        ensures
            r == self.spec_is_would_block(),
    {
        self.kind == IoErrorKind::WouldBlock || self.kind == IoErrorKind::TimedOut
    }
}

/// A call that a task wants made on the stream.
#[derive(Debug, Clone, Copy, PartialEq, Eq, Structural)]
pub enum Request {
    /// Read into the spare region of the read buffer.
    Read,
    /// Write the unsent part of the send buffer.
    Write,
    /// Flush the stream.
    Flush,
}

/// What the requested call returned.
#[derive(Debug)]
pub enum Reply {
    Read(Result<usize, IoError>),
    Written(Result<usize, IoError>),
    Flushed(Result<(), IoError>),
}

impl Reply {
    /// The reply is to that kind of request.
    pub open spec fn answers(self, request: Request) -> bool {
        match request {
            Request::Read => self is Read,
            Request::Write => self is Written,
            Request::Flush => self is Flushed,
        }
    }
}

} // verus!
