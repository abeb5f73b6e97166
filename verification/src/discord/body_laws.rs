//! What holds of a response's body, however the stream hands it out.
use vstd::prelude::*;

use crate::bytes::{concat, lemma_concat_last, lemma_find_sub};
use crate::discord::chunk_laws::{
    body_ok, body_wire, chunks_data, law_chunked_body_is_read_back, law_decoding_in_pieces,
    with_more, WireChunk,
};
use crate::discord::chunked::{chunk_step, crlf, run_chunks, ChunkModel, ChunkStage, ChunkStop};
use crate::discord::error::Error;
use crate::discord::http::{ResponseHead, MAX_RESPONSE_BODY};
use crate::discord::response::{
    body_leads_to, chunks_lead_to, completed, fixed_leads_to, response_resumes, ResponseProgress,
    ResponseTask,
};

verus! {

/// Reading a response goes from `first` to `last` with those reads.
pub open spec fn response_runs(
    first: ResponseProgress,
    reads: Seq<Seq<u8>>,
    last: ResponseProgress,
) -> bool
    decreases reads.len(),
{
    if reads.len() == 0 {
        first == last
    } else {
        exists|mid: ResponseProgress|
            #![trigger read_on(mid, reads.last(), last)]
            response_runs(first, reads.drop_last(), mid) && read_on(mid, reads.last(), last)
    }
}

/// The next read gives those bytes.
pub open spec fn read_on(p: ResponseProgress, bytes: Seq<u8>, next: ResponseProgress) -> bool {
    &&& p matches ResponseProgress::Read { task, max }
    &&& 0 < bytes.len() <= max
    &&& response_resumes(task, Ok(bytes), next)
}

/// With `more` still to come, the body that is being read is complete with
/// `body`.
spec fn heads_for(head: ResponseHead, p: ResponseProgress, more: Seq<u8>, body: Seq<u8>) -> bool {
    match p {
        ResponseProgress::Read { task, max } => {
            &&& task matches ResponseTask::Chunked { head: h, reader }
            &&& h == head
            &&& ({
                let (m, stop) = run_chunks(with_more(reader.model(), more));
                stop is Done && m.body == body
            })
            &&& run_chunks(reader.model()).1 is More
        },
        ResponseProgress::Done(_) => completed(head, body, head.keep_alive, p),
    }
}

proof fn lemma_more_needed(m: ChunkModel)
    ensures
        ({
            let (m1, stop) = run_chunks(m);
            stop is More ==> run_chunks(m1) == (m1, ChunkStop::More)
        }),
    decreases m.rest.len(),
{
    let (m1, stop) = chunk_step(m);
    lemma_find_sub(m.rest, crlf());
    if stop is None {
        lemma_more_needed(m1);
    }
}

proof fn lemma_chunks_head_on(
    head: ResponseHead,
    m: ChunkModel,
    p: ResponseProgress,
    more: Seq<u8>,
    body: Seq<u8>,
)
    requires
        chunks_lead_to(head, m, p),
        ({
            let (m1, stop) = run_chunks(with_more(m, more));
            stop is Done && m1.body == body
        }),
    ensures
        heads_for(head, p, more, body),
{
    law_decoding_in_pieces(m, more);
    lemma_more_needed(m);
}

proof fn lemma_response_heads_on(
    head: ResponseHead,
    first: ResponseProgress,
    reads: Seq<Seq<u8>>,
    last: ResponseProgress,
    all: Seq<u8>,
    body: Seq<u8>,
)
    requires
        response_runs(first, reads, last),
        concat(reads).is_prefix_of(all),
        heads_for(head, first, all, body),
    ensures
        heads_for(head, last, all.skip(concat(reads).len() as int), body),
    decreases reads.len(),
{
    if reads.len() == 0 {
        assert(all.skip(0) =~= all);
    } else {
        let before = reads.drop_last();
        let bytes = reads.last();
        let more = all.skip(concat(reads).len() as int);
        lemma_concat_last(reads);
        assert(all =~= concat(reads) + more);
        assert(all.skip(concat(before).len() as int) =~= bytes + more);
        assert(concat(before).is_prefix_of(all)) by {
            assert(all.subrange(0, concat(before).len() as int) =~= concat(before));
        }
        let mid = choose|mid: ResponseProgress|
            #![trigger read_on(mid, bytes, last)]
            response_runs(first, before, mid) && read_on(mid, bytes, last);
        lemma_response_heads_on(head, first, before, mid, all, body);
        if let ResponseProgress::Read { task, max } = mid {
            if let ResponseTask::Chunked { head: h, reader } = task {
                let m = ChunkModel { rest: reader.model().rest + bytes, ..reader.model() };
                assert(with_more(m, more).rest =~= with_more(reader.model(), bytes + more).rest);
                lemma_chunks_head_on(head, m, last, more, body);
            }
        }
    }
}

/// However a chunked body is cut into what came with the head and the reads
/// after it, it is read as the data of its chunks in a row, and it is complete
/// when all of it has come.
pub proof fn law_chunked_body_in_pieces(
    head: ResponseHead,
    leftover: Seq<u8>,
    first: ResponseProgress,
    reads: Seq<Seq<u8>>,
    last: ResponseProgress,
    chunks: Seq<WireChunk>,
    end: Seq<u8>,
    trailers: Seq<Seq<u8>>,
)
    requires
        head.chunked,
        body_leads_to(head, leftover, first),
        response_runs(first, reads, last),
        (leftover + concat(reads)).is_prefix_of(body_wire(chunks, end, trailers)),
        body_ok(chunks, end, trailers),
        chunks_data(chunks).len() <= MAX_RESPONSE_BODY,
    ensures
        last is Done ==> completed(head, chunks_data(chunks), head.keep_alive, last),
        leftover + concat(reads) == body_wire(chunks, end, trailers) ==> last is Done,
{
    let wire = body_wire(chunks, end, trailers);
    let body = chunks_data(chunks);
    let none = Seq::<u8>::empty();
    let m = ChunkModel { rest: leftover, body: none, stage: ChunkStage::Size };
    let all = wire.skip(leftover.len() as int);
    let got = leftover + concat(reads);
    assert(wire =~= got + wire.skip(got.len() as int));
    assert(with_more(m, all).rest =~= wire);
    assert(wire + none =~= wire);
    law_chunked_body_is_read_back(with_more(m, all), chunks, end, trailers, none);
    assert(none + body =~= body);
    lemma_chunks_head_on(head, m, first, all, body);
    assert(concat(reads).is_prefix_of(all)) by {
        assert(all.subrange(0, concat(reads).len() as int) =~= concat(reads));
    }
    lemma_response_heads_on(head, first, reads, last, all, body);
    if got == wire {
        let rest = all.skip(concat(reads).len() as int);
        assert(rest =~= none);
        if let ResponseProgress::Read { task, max } = last {
            if let ResponseTask::Chunked { head: h, reader } = task {
                assert(with_more(reader.model(), rest).rest =~= reader.model().rest);
            }
        }
    }
}

proof fn lemma_fixed_body(
    head: ResponseHead,
    leftover: Seq<u8>,
    len: usize,
    first: ResponseProgress,
    reads: Seq<Seq<u8>>,
    last: ResponseProgress,
)
    requires
        len <= MAX_RESPONSE_BODY,
        fixed_leads_to(head, leftover, len, first),
        response_runs(first, reads, last),
    ensures
        fixed_leads_to(head, leftover + concat(reads), len, last),
        reads.len() > 0 ==> leftover.len() + concat(reads).len() <= len,
    decreases reads.len(),
{
    if reads.len() == 0 {
        assert(leftover + concat(reads) =~= leftover);
    } else {
        let before = reads.drop_last();
        let bytes = reads.last();
        let mid = choose|mid: ResponseProgress|
            #![trigger read_on(mid, bytes, last)]
            response_runs(first, before, mid) && read_on(mid, bytes, last);
        lemma_fixed_body(head, leftover, len, first, before, mid);
        lemma_concat_last(reads);
        assert(leftover + concat(before) + bytes =~= leftover + concat(reads));
    }
}

/// However a body of known length is cut into what came with the head and the
/// reads after it, it is complete when that many bytes have come, and it is
/// these bytes; no byte beyond them is read, and one that is too large is not
/// read at all.
pub proof fn law_fixed_body_in_pieces(
    head: ResponseHead,
    leftover: Seq<u8>,
    len: usize,
    first: ResponseProgress,
    reads: Seq<Seq<u8>>,
    last: ResponseProgress,
)
    requires
        !head.chunked,
        head.content_length == Some(len),
        body_leads_to(head, leftover, first),
        response_runs(first, reads, last),
    ensures
        len > MAX_RESPONSE_BODY ==> reads.len() == 0 && last == ResponseProgress::Done(
            Err(Error::ResponseTooLarge(len)),
        ),
        len <= MAX_RESPONSE_BODY ==> {
            let got = leftover + concat(reads);
            &&& last is Done <==> got.len() >= len
            &&& got.len() >= len ==> completed(head, got.take(len as int), head.keep_alive, last)
            &&& reads.len() > 0 ==> got.len() <= len
        },
{
    if len <= MAX_RESPONSE_BODY {
        lemma_fixed_body(head, leftover, len, first, reads, last);
    } else {
        lemma_done_stays(first, reads, last);
    }
}

proof fn lemma_done_stays(first: ResponseProgress, reads: Seq<Seq<u8>>, last: ResponseProgress)
    requires
        first is Done,
        response_runs(first, reads, last),
    ensures
        reads.len() == 0,
    decreases reads.len(),
{
    if reads.len() > 0 {
        let before = reads.drop_last();
        let bytes = reads.last();
        let mid = choose|mid: ResponseProgress|
            #![trigger read_on(mid, bytes, last)]
            response_runs(first, before, mid) && read_on(mid, bytes, last);
        lemma_done_stays(first, before, mid);
    }
}

} // verus!
