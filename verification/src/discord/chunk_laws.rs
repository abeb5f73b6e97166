//! What holds of chunked bodies, whoever writes and reads them.
use vstd::prelude::*;
use vstd::utf8::{encode_utf8, encode_utf8_decode_utf8, encode_utf8_valid_utf8};

use crate::bytes::{concat, find_sub, has_prefix, lemma_find_is, lemma_find_sub};
use crate::discord::chunked::{
    chunk_size, chunk_step, crlf, run_chunks, ChunkModel, ChunkStage, ChunkStop,
};
use crate::discord::http::MAX_RESPONSE_BODY;
use crate::text::{all_hex, hex_digits_value, hex_value, trim_back, trim_front};

verus! {

/// `m` with more bytes received.
pub open spec fn with_more(m: ChunkModel, more: Seq<u8>) -> ChunkModel {
    ChunkModel { rest: m.rest + more, ..m }
}

pub proof fn lemma_find_sub_more(s: Seq<u8>, more: Seq<u8>, pat: Seq<u8>)
    requires
        find_sub(s, pat) >= 0,
    ensures
        find_sub(s + more, pat) == find_sub(s, pat),
    decreases s.len(),
{
    if has_prefix(s, pat) {
        assert((s + more).take(pat.len() as int) =~= s.take(pat.len() as int));
    } else {
        lemma_find_sub_more(s.skip(1), more, pat);
        assert((s + more).skip(1) =~= s.skip(1) + more);
        lemma_find_sub(s.skip(1), pat);
        assert(s.len() >= 1 + pat.len());
        assert((s + more).take(pat.len() as int) =~= s.take(pat.len() as int));
    }
}

/// What is decoded does not depend on how the bytes were cut into pieces: to
/// go on with more bytes where decoding had to wait is to decode all of them,
/// and what it stopped at for another reason it stops at with more bytes
/// behind it, too.
pub proof fn law_decoding_in_pieces(m: ChunkModel, more: Seq<u8>)
    ensures
        ({
            let (m1, stop) = run_chunks(m);
            let whole = run_chunks(with_more(m, more));
            if stop is More {
                whole == run_chunks(with_more(m1, more))
            } else {
                whole == (with_more(m1, more), stop)
            }
        }),
    decreases m.rest.len(),
{
    let (m1, stop) = chunk_step(m);
    let end = find_sub(m.rest, crlf());
    lemma_find_sub(m.rest, crlf());
    if !(stop == Some(ChunkStop::More)) {
        if end >= 0 {
            lemma_find_sub_more(m.rest, more, crlf());
            assert((m.rest + more).take(end) =~= m.rest.take(end));
            assert((m.rest + more).skip(end + 2) =~= m.rest.skip(end + 2) + more);
            assert((m.rest + more).skip(2) =~= m.rest.skip(2) + more);
        }
        if let ChunkStage::Data(size) = m.stage {
            assert((m.rest + more).skip(size + 2) =~= m.rest.skip(size + 2) + more);
            assert((m.rest + more).take(size as int) =~= m.rest.take(size as int));
        }
        assert(chunk_step(with_more(m, more)) == (with_more(m1, more), stop));
        if stop is None {
            law_decoding_in_pieces(m1, more);
        }
    }
}

/// A size line may be any hexadecimal digits, in upper or lower case and with
/// leading zeroes; an extension after them does not count.
pub proof fn law_chunk_size(digits: Seq<char>, extension: Seq<char>)
    requires
        digits.len() > 0,
        all_hex(digits),
        hex_digits_value(digits) <= usize::MAX,
        extension.len() > 0 ==> extension[0] == ';',
    ensures
        chunk_size(encode_utf8(digits + extension)) == Some(hex_digits_value(digits)),
{
    let s = digits + extension;
    let n = digits.len() as int;
    encode_utf8_valid_utf8(s);
    encode_utf8_decode_utf8(s);
    assert forall|k: int| 0 <= k < n implies s[k] != ';' by {
        assert(hex_value(digits[k]) < 16);
    }
    lemma_find_is(s, ';', n);
    assert(s.take(n) =~= digits);
    assert(hex_value(digits[0]) < 16 && hex_value(digits[n - 1]) < 16);
    assert(trim_front(digits) == digits);
    assert(trim_back(digits) == digits);
}

/// Bytes that are a line once a line end follows them.
pub open spec fn is_line(line: Seq<u8>) -> bool {
    find_sub(line + crlf(), crlf()) == line.len()
}

proof fn lemma_line_found(line: Seq<u8>, rest: Seq<u8>)
    requires
        is_line(line),
    ensures
        find_sub(line + crlf() + rest, crlf()) == line.len(),
        (line + crlf() + rest).take(line.len() as int) == line,
        (line + crlf() + rest).skip(line.len() as int + 2) == rest,
{
    lemma_find_sub_more(line + crlf(), rest, crlf());
    let s = line + crlf() + rest;
    assert(s.take(line.len() as int) =~= line);
    assert(s.skip(line.len() as int + 2) =~= rest);
}

/// A chunk as it is sent: the line with its size, and its data.
pub struct WireChunk {
    pub line: Seq<u8>,
    pub data: Seq<u8>,
}

impl WireChunk {
    /// The line gives the data's size, and there is data.
    pub open spec fn ok(self) -> bool {
        &&& is_line(self.line)
        &&& self.data.len() > 0
        &&& chunk_size(self.line) == Some(self.data.len())
    }

    pub open spec fn wire(self) -> Seq<u8> {
        self.line + crlf() + self.data + crlf()
    }
}

/// The trailer as it is sent: its lines, and an empty one.
pub open spec fn trailer_wire(trailers: Seq<Seq<u8>>) -> Seq<u8>
    decreases trailers.len(),
{
    if trailers.len() == 0 {
        crlf()
    } else {
        trailers[0] + crlf() + trailer_wire(trailers.skip(1))
    }
}

/// A body as it is sent in chunks: the chunks, a line with the size zero, and
/// the trailer.
pub open spec fn body_wire(chunks: Seq<WireChunk>, last: Seq<u8>, trailers: Seq<Seq<u8>>) -> Seq<u8>
    decreases chunks.len(),
{
    if chunks.len() == 0 {
        last + crlf() + trailer_wire(trailers)
    } else {
        chunks[0].wire() + body_wire(chunks.skip(1), last, trailers)
    }
}

/// The chunks, the last size line and the trailer are well formed.
pub open spec fn body_ok(chunks: Seq<WireChunk>, last: Seq<u8>, trailers: Seq<Seq<u8>>) -> bool {
    &&& forall|i: int| 0 <= i < chunks.len() ==> (#[trigger] chunks[i]).ok()
    &&& is_line(last)
    &&& chunk_size(last) == Some(0nat)
    &&& forall|i: int|
        0 <= i < trailers.len() ==> is_line(#[trigger] trailers[i]) && trailers[i].len() > 0
}

/// The data of all chunks in a row.
pub open spec fn chunks_data(chunks: Seq<WireChunk>) -> Seq<u8> {
    concat(Seq::new(chunks.len(), |i: int| chunks[i].data))
}

proof fn lemma_trailer_is_skipped(m: ChunkModel, trailers: Seq<Seq<u8>>, after: Seq<u8>)
    requires
        m.stage == ChunkStage::Trailer,
        m.rest == trailer_wire(trailers) + after,
        forall|i: int|
            0 <= i < trailers.len() ==> is_line(#[trigger] trailers[i]) && trailers[i].len() > 0,
    ensures
        run_chunks(m) == (ChunkModel { rest: after, ..m }, ChunkStop::Done),
    decreases trailers.len(),
{
    lemma_find_sub(m.rest, crlf());
    if trailers.len() == 0 {
        let none = Seq::<u8>::empty();
        assert(none + crlf() =~= crlf());
        assert(crlf().take(2) =~= crlf());
        assert(is_line(none));
        lemma_line_found(none, after);
        assert(m.rest =~= none + crlf() + after);
    } else {
        let line = trailers[0];
        let more = trailers.skip(1);
        let tail = trailer_wire(more) + after;
        assert(m.rest =~= line + crlf() + tail);
        lemma_line_found(line, tail);
        let (m1, _) = chunk_step(m);
        assert forall|i: int| 0 <= i < more.len() implies is_line(#[trigger] more[i])
            && more[i].len() > 0 by {
            assert(more[i] == trailers[i + 1]);
        }
        lemma_trailer_is_skipped(m1, more, after);
        assert(run_chunks(m) == run_chunks(m1));
    }
}

/// A body that was sent in chunks is read as the data of the chunks in a row:
/// the size lines with their extensions, the line ends and the trailer are left
/// out, and what follows is left.
pub proof fn law_chunked_body_is_read_back(
    m: ChunkModel,
    chunks: Seq<WireChunk>,
    last: Seq<u8>,
    trailers: Seq<Seq<u8>>,
    after: Seq<u8>,
)
    requires
        m.stage == ChunkStage::Size,
        m.rest == body_wire(chunks, last, trailers) + after,
        body_ok(chunks, last, trailers),
        m.body.len() + chunks_data(chunks).len() <= MAX_RESPONSE_BODY,
    ensures
        run_chunks(m) == (
            ChunkModel {
                rest: after,
                body: m.body + chunks_data(chunks),
                stage: ChunkStage::Trailer,
            },
            ChunkStop::Done,
        ),
    decreases chunks.len(),
{
    lemma_find_sub(m.rest, crlf());
    let datas = Seq::new(chunks.len(), |i: int| chunks[i].data);
    if chunks.len() == 0 {
        let tail = trailer_wire(trailers) + after;
        assert(m.rest =~= last + crlf() + tail);
        lemma_line_found(last, tail);
        let (m1, _) = chunk_step(m);
        lemma_trailer_is_skipped(m1, trailers, after);
        assert(m.body + chunks_data(chunks) =~= m.body);
        assert(run_chunks(m) == run_chunks(m1));
    } else {
        let chunk = chunks[0];
        let more = chunks.skip(1);
        let tail = body_wire(more, last, trailers) + after;
        assert(chunk.ok());
        assert(datas.skip(1) =~= Seq::new(more.len(), |i: int| more[i].data));
        assert(chunks_data(chunks) == chunk.data + chunks_data(more));
        assert(m.rest =~= chunk.line + crlf() + (chunk.data + crlf() + tail));
        lemma_line_found(chunk.line, chunk.data + crlf() + tail);
        let (m1, _) = chunk_step(m);
        assert(m1.rest == chunk.data + crlf() + tail);
        let (m2, _) = chunk_step(m1);
        assert(m2.rest =~= tail);
        assert(m1.rest.take(chunk.data.len() as int) =~= chunk.data);
        assert(m2.body =~= m.body + chunk.data);
        assert forall|i: int| 0 <= i < more.len() implies (#[trigger] more[i]).ok() by {
            assert(more[i] == chunks[i + 1]);
        }
        law_chunked_body_is_read_back(m2, more, last, trailers, after);
        assert(m2.body + chunks_data(more) =~= m.body + chunks_data(chunks));
        assert(run_chunks(m) == run_chunks(m1));
        assert(run_chunks(m1) == run_chunks(m2));
    }
}

/// However many chunks come, the body stays within its limit.
pub proof fn law_body_within_limit(m: ChunkModel)
    requires
        m.body.len() <= MAX_RESPONSE_BODY,
        m.stage matches ChunkStage::Data(size) ==> m.body.len() + size <= MAX_RESPONSE_BODY,
    ensures
        run_chunks(m).0.body.len() <= MAX_RESPONSE_BODY,
    decreases m.rest.len(),
{
    let (m1, stop) = chunk_step(m);
    lemma_find_sub(m.rest, crlf());
    if stop is None {
        law_body_within_limit(m1);
    }
}

} // verus!
