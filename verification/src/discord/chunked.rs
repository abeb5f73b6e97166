//! Chunked response bodies (RFC 7230 section 4.1).
use vstd::prelude::*;
use vstd::slice::{slice_subrange, slice_to_vec};

use crate::bytes::{find, find_sub, find_subslice, lemma_find_sub, push_bytes};
use crate::discord::error::Error;
use crate::discord::http::{text_of, MAX_RESPONSE_BODY};
use crate::ext::decode_text;
use crate::text::{chars_of, find_char, hex_number_in, parse_hex, trim, trim_range};

verus! {

/// Consumed bytes beyond this many are dropped.
pub const COMPACT_THRESHOLD: usize = 8192;

/// What a chunked body is being read up to.
#[derive(Debug, Clone, Copy, PartialEq, Eq, Structural)]
pub enum ChunkStage {
    /// The line with the next chunk's size.
    Size,
    /// A chunk of that size.
    Data(usize),
    /// The trailer that ends the body.
    Trailer,
}

/// A chunked body as far as it has been read.
pub struct ChunkModel {
    /// Received, undecoded bytes.
    pub rest: Seq<u8>,
    pub body: Seq<u8>,
    pub stage: ChunkStage,
}

/// Why decoding stops.
#[derive(Debug)]
pub enum ChunkStop {
    /// More bytes are needed.
    More,
    /// The body is complete.
    Done,
    Fail(Error),
}

/// A line end.
pub open spec fn crlf() -> Seq<u8> {
    seq![13u8, 10u8]
}

/// The chunk size that a line gives: hexadecimal, up to an extension.
pub open spec fn chunk_size(line: Seq<u8>) -> Option<nat> {
    match text_of(line) {
        Some(s) => parse_hex(trim(s.take(find(s, ';'))), usize::MAX as nat),
        None => None,
    }
}

/// The next piece of a chunked body.
pub open spec fn chunk_step(m: ChunkModel) -> (ChunkModel, Option<ChunkStop>) {
    let end = find_sub(m.rest, crlf());
    match m.stage {
        ChunkStage::Size => if end < 0 {
            (m, Some(ChunkStop::More))
        } else {
            match chunk_size(m.rest.take(end)) {
                None => (m, Some(ChunkStop::Fail(Error::MalformedChunk))),
                Some(size) => if size == 0 {
                    (
                        ChunkModel {
                            rest: m.rest.skip(end + 2),
                            stage: ChunkStage::Trailer,
                            ..m
                        },
                        None,
                    )
                } else if size > MAX_RESPONSE_BODY {
                    (m, Some(ChunkStop::Fail(Error::ResponseTooLarge(size as usize))))
                } else if m.body.len() + size > MAX_RESPONSE_BODY {
                    (
                        m,
                        Some(
                            ChunkStop::Fail(Error::ResponseTooLarge((m.body.len() + size) as usize)),
                        ),
                    )
                } else {
                    (
                        ChunkModel {
                            rest: m.rest.skip(end + 2),
                            stage: ChunkStage::Data(size as usize),
                            ..m
                        },
                        None,
                    )
                },
            }
        },
        ChunkStage::Data(size) => if m.rest.len() < size + 2 {
            (m, Some(ChunkStop::More))
        } else {
            (
                ChunkModel {
                    rest: m.rest.skip(size + 2),
                    body: m.body + m.rest.take(size as int),
                    stage: ChunkStage::Size,
                },
                None,
            )
        },
        ChunkStage::Trailer => if end < 0 {
            (m, Some(ChunkStop::More))
        } else if end == 0 {
            (ChunkModel { rest: m.rest.skip(2), ..m }, Some(ChunkStop::Done))
        } else {
            (ChunkModel { rest: m.rest.skip(end + 2), ..m }, None)
        },
    }
}

/// Piece after piece, until something stops the decoding.
pub open spec fn run_chunks(m: ChunkModel) -> (ChunkModel, ChunkStop)
    decreases m.rest.len(),
    via run_chunks_decreases
{
    let (m1, stop) = chunk_step(m);
    match stop {
        Some(stop) => (m1, stop),
        None => run_chunks(m1),
    }
}

#[via_fn]
proof fn run_chunks_decreases(m: ChunkModel) {
    lemma_find_sub(m.rest, crlf());
}

/// What the end of the stream means to a chunked body.
pub open spec fn chunks_end(m: ChunkModel) -> Result<Seq<u8>, Error> {
    if m.stage == ChunkStage::Trailer {
        Ok(m.body)
    } else {
        Err(Error::ConnectionClosed)
    }
}

/// A chunked body that is being read.
#[derive(Debug)]
pub struct ChunkReader {
    buf: Vec<u8>,
    pos: usize,
    body: Vec<u8>,
    stage: ChunkStage,
}

/// The chunk size that a line gives.
fn parse_chunk_size(line: &[u8]) -> (r: Option<usize>)
    ensures
        match r {
            Some(n) => chunk_size(line@) == Some(n as nat),
            None => chunk_size(line@) is None,
        },
{
    match decode_text(line) {
        Err(_) => None,
        Ok(s) => {
            let chars = chars_of(s);
            let end: usize = find_char(chars.as_slice(), ';', 0);
            assert(chars@.skip(0) =~= chars@);
            assert(chars@.subrange(0, end as int) =~= chars@.take(end as int));
            let (from, to) = trim_range(chars.as_slice(), 0, end);
            match hex_number_in(slice_subrange(chars.as_slice(), from, to), usize::MAX as u64) {
                Some(n) => Some(n as usize),
                None => None,
            }
        },
    }
}

impl ChunkReader {
    pub closed spec fn model(self) -> ChunkModel {
        ChunkModel {
            rest: self.buf@.skip(self.pos as int),
            body: self.body@,
            stage: self.stage,
        }
    }

    /// The cursor is inside the buffer, and the body within its limit.
    pub closed spec fn wf(self) -> bool {
        &&& self.pos <= self.buf@.len()
        &&& self.body@.len() <= MAX_RESPONSE_BODY
        &&& self.stage matches ChunkStage::Data(size) ==> self.body@.len() + size
            <= MAX_RESPONSE_BODY
    }

    /// Begin with the bytes that followed the head.
    pub fn new(leftover: Vec<u8>) -> (r: Self)
        ensures
            r.wf(),
            r.model() == (ChunkModel {
                rest: leftover@,
                body: Seq::empty(),
                stage: ChunkStage::Size,
            }),
    {
        let r = ChunkReader { buf: leftover, pos: 0, body: Vec::new(), stage: ChunkStage::Size };
        assert(r.model().rest =~= leftover@);
        assert(r.model().body =~= Seq::<u8>::empty());
        r
    }

    /// More bytes have arrived.
    pub fn feed(&mut self, data: &[u8])
        requires
            old(self).wf(),
        ensures
            final(self).wf(),
            final(self).model() == (ChunkModel {
                rest: old(self).model().rest + data@,
                ..old(self).model()
            }),
    {
        push_bytes(&mut self.buf, data);
        assert(self.model().rest =~= old(self).model().rest + data@);
    }

    /// Decode what has arrived.
    pub fn run(&mut self) -> (r: ChunkStop)
        requires
            old(self).wf(),
        ensures
            final(self).wf(),
            (final(self).model(), r) == run_chunks(old(self).model()),
    {
        let ghost all = run_chunks(self.model());
        let line_end: [u8; 2] = [13u8, 10u8];
        assert(line_end@ =~= crlf());
        loop
            invariant
                self.wf(),
                line_end@ == crlf(),
                all == run_chunks(old(self).model()),
                all == run_chunks(self.model()),
            decreases self.model().rest.len(),
        {
            let ghost m = self.model();
            proof {
                lemma_find_sub(m.rest, crlf());
            }
            match self.stage {
                ChunkStage::Size => match find_subslice(self.buf.as_slice(), &line_end, self.pos) {
                    None => {
                        return ChunkStop::More;
                    },
                    Some(end) => {
                        let line = slice_subrange(self.buf.as_slice(), self.pos, end);
                        assert(line@ =~= m.rest.take(end - self.pos));
                        match parse_chunk_size(line) {
                            None => {
                                return ChunkStop::Fail(Error::MalformedChunk);
                            },
                            Some(size) => {
                                assert(end + 2 <= self.buf.len());
                                assert(self.buf@.skip(end + 2) =~= m.rest.skip(end - self.pos + 2));
                                if size == 0 {
                                    self.pos = end + 2;
                                    self.stage = ChunkStage::Trailer;
                                } else if size > MAX_RESPONSE_BODY {
                                    return ChunkStop::Fail(Error::ResponseTooLarge(size));
                                } else if self.body.len() + size > MAX_RESPONSE_BODY {
                                    return ChunkStop::Fail(
                                        Error::ResponseTooLarge(self.body.len() + size),
                                    );
                                } else {
                                    self.pos = end + 2;
                                    self.stage = ChunkStage::Data(size);
                                }
                            },
                        }
                    },
                },
                ChunkStage::Data(size) => {
                    let need: usize = size + 2;
                    if self.buf.len() - self.pos < need {
                        return ChunkStop::More;
                    }
                    let chunk = slice_subrange(self.buf.as_slice(), self.pos, self.pos + size);
                    assert(chunk@ =~= m.rest.take(size as int));
                    push_bytes(&mut self.body, chunk);
                    self.pos = self.pos + need;
                    self.stage = ChunkStage::Size;
                    assert(self.buf@.skip(self.pos as int) =~= m.rest.skip(need as int));
                    self.compact();
                },
                ChunkStage::Trailer => match find_subslice(
                    self.buf.as_slice(),
                    &line_end,
                    self.pos,
                ) {
                    None => {
                        return ChunkStop::More;
                    },
                    Some(end) => {
                        assert(end + 2 <= self.buf.len());
                        assert(self.buf@.skip(end + 2) =~= m.rest.skip(end - self.pos + 2));
                        let done: bool = end == self.pos;
                        self.pos = end + 2;
                        if done {
                            return ChunkStop::Done;
                        }
                    },
                },
            }
        }
    }

    /// Drop consumed bytes when there are many, so that no more of them than
    /// the threshold stay.
    fn compact(&mut self)
        requires
            old(self).wf(),
        ensures
            final(self).wf(),
            final(self).model() == old(self).model(),
            old(self).pos > COMPACT_THRESHOLD ==> final(self).pos == 0 && final(self).buf@ == old(
                self,
            ).buf@.skip(old(self).pos as int),
            old(self).pos <= COMPACT_THRESHOLD ==> *final(self) == *old(self),
    {
        if self.pos > COMPACT_THRESHOLD {
            let rest = slice_to_vec(
                slice_subrange(self.buf.as_slice(), self.pos, self.buf.len()),
            );
            assert(rest@ =~= self.model().rest);
            self.buf = rest;
            self.pos = 0;
            assert(self.model().rest =~= old(self).model().rest);
        }
    }

    /// The stream has ended: the body, if it was complete but for its trailer.
    pub fn end(self) -> (r: Result<Vec<u8>, Error>)
        ensures
            match chunks_end(self.model()) {
                Ok(body) => r matches Ok(v) && v@ == body,
                Err(e) => r == Err::<Vec<u8>, Error>(e),
            },
    {
        match self.stage {
            ChunkStage::Trailer => Ok(self.body),
            ChunkStage::Size | ChunkStage::Data(_) => Err(Error::ConnectionClosed),
        }
    }

    /// The body as far as it has been decoded.
    pub fn into_body(self) -> (r: Vec<u8>)
        ensures
            r@ == self.model().body,
    {
        self.body
    }
}

} // verus!
