//! What the opening handshake sends, and what it asks of the answer.
use vstd::prelude::*;
use vstd::utf8::{encode_utf8, encode_utf8_decode_utf8, encode_utf8_valid_utf8};

use crate::bytes::{eq_no_case, lemma_find_is, trimmed};
use crate::digest::{base64_standard, sha1_digest};
use crate::text::trim;
use crate::ws::error::{CallerError, ConnectionError, Error};
use crate::ws::handshake::{
    blank_line_at, check_request_parts, check_response, expected_accept, field, has_token,
    header_block_ends, header_lines, header_ok, header_search, header_window, lemma_header_search, offers,
    opt_text, response_result, selection, upgrade_request,
};
use crate::ws::io::{IoErrorKind, Reply};
use crate::ws::proto::CloseState;
use crate::ws::rng::Rng;
use crate::ws::websocket::{HandshakeProgress, HandshakeTask, WebSocket};

verus! {

/// The request that opens a connection, line by line; subprotocols that are
/// offered, and further headers, come behind the others.  The key in it is the
/// Base64 form of 16 bytes that were drawn for it.
pub proof fn law_upgrade_request<S, R: Rng>(
    ws: &mut WebSocket<S, R>,
    host: &str,
    path: &str,
    headers: &[(&str, &str)],
    task: HandshakeTask,
)
    requires
        call_ensures(WebSocket::<S, R>::handshake, (ws, host, path, headers), task),
    ensures
        task is Writing,
        exists|raw: Seq<u8>|
            raw.len() == 16 && task.key() == base64_standard(raw) && #[trigger] old(ws).rng.gives(
                raw,
                &final(ws).rng,
            ),
        final(ws).bufs.send.unsent_bytes() == encode_utf8("GET "@) + encode_utf8(path@)
            + encode_utf8(" HTTP/1.1\r\n"@) + (encode_utf8("Host: "@) + encode_utf8(host@)
            + encode_utf8("\r\nUpgrade: websocket\r\nConnection: Upgrade\r\nSec-WebSocket-Key: "@)
            + task.key() + encode_utf8("\r\nSec-WebSocket-Version: 13\r\n"@)) + (match opt_text(
            old(ws).sess.subprotocols,
        ) {
            Some(list) => encode_utf8("Sec-WebSocket-Protocol"@) + encode_utf8(": "@) + encode_utf8(
                list,
            ) + encode_utf8("\r\n"@),
            None => Seq::empty(),
        }) + header_lines(headers@) + encode_utf8("\r\n"@),
        final(ws).sess.close_state == CloseState::Open,
        final(ws).bufs.read.pending_bytes().len() == 0,
{
}

/// Further headers are sent in their order, each on a line of its own.
pub proof fn law_headers_are_sent(headers: Seq<(&str, &str)>, name: &str, value: &str)
    ensures
        header_lines(Seq::empty()) == Seq::<u8>::empty(),
        header_lines(headers.push((name, value))) == header_lines(headers) + (encode_utf8(name@)
            + encode_utf8(": "@) + encode_utf8(value@) + encode_utf8("\r\n"@)),
{
    let all = headers.push((name, value));
    assert(all.drop_last() =~= headers);
    assert(all.last() == (name, value));
}

/// The answer that the server must give is the Base64 form of the SHA-1 digest
/// of the key and the protocol's GUID.
pub proof fn law_accept_key(key: &[u8], r: Vec<u8>)
    requires
        call_ensures(expected_accept, (key,), r),
    ensures
        r@ == base64_standard(
            sha1_digest(key@ + encode_utf8("258EAFA5-E914-47DA-95CA-C5AB0DC85B11"@)),
        ),
{
}

/// Nothing goes into a request that could end a line or add a header: no control
/// characters anywhere, no spaces in host, path and header names, and no colon
/// in names.
pub proof fn law_request_parts(
    host: &str,
    path: &str,
    headers: &[(&str, &str)],
    ok: bool,
)
    requires
        call_ensures(check_request_parts, (host, path, headers), ok),
    ensures
        ok ==> {
            &&& forall|i: int|
                0 <= i < encode_utf8(host@).len() ==> 32 < #[trigger] encode_utf8(host@)[i]
                    && encode_utf8(host@)[i] != 127
            &&& forall|i: int|
                0 <= i < encode_utf8(path@).len() ==> 32 < #[trigger] encode_utf8(path@)[i]
                    && encode_utf8(path@)[i] != 127
            &&& forall|k: int, i: int|
                0 <= k < headers@.len() && 0 <= i < encode_utf8(headers@[k].0@).len() ==> 32
                    < #[trigger] encode_utf8(headers@[k].0@)[i] && encode_utf8(headers@[k].0@)[i]
                    != 127 && encode_utf8(headers@[k].0@)[i] != 58
            &&& forall|k: int, i: int|
                0 <= k < headers@.len() && 0 <= i < encode_utf8(headers@[k].1@).len() ==> 32
                    <= #[trigger] encode_utf8(headers@[k].1@)[i] && encode_utf8(headers@[k].1@)[i]
                    != 127
        },
        headers@.len() == 0 && (forall|i: int|
            0 <= i < encode_utf8(host@).len() ==> 32 < #[trigger] encode_utf8(host@)[i]
                && encode_utf8(host@)[i] != 127) && (forall|i: int|
            0 <= i < encode_utf8(path@).len() ==> 32 < #[trigger] encode_utf8(path@)[i]
                && encode_utf8(path@)[i] != 127) ==> ok,
{
    if ok {
        assert forall|k: int, i: int|
            0 <= k < headers@.len() && 0 <= i < encode_utf8(headers@[k].0@).len() implies 32
            < #[trigger] encode_utf8(headers@[k].0@)[i] && encode_utf8(headers@[k].0@)[i] != 127
            && encode_utf8(headers@[k].0@)[i] != 58 by {
            assert(header_ok(headers@[k].0@, headers@[k].1@));
        }
        assert forall|k: int, i: int|
            0 <= k < headers@.len() && 0 <= i < encode_utf8(headers@[k].1@).len() implies 32
            <= #[trigger] encode_utf8(headers@[k].1@)[i] && encode_utf8(headers@[k].1@)[i]
            != 127 by {
            assert(header_ok(headers@[k].0@, headers@[k].1@));
        }
    }
}

/// A request with a part that is not allowed is not sent: the caller is told,
/// and keeps socket and stream.
pub proof fn law_bad_request_is_refused<S, R: Rng>(
    ws: WebSocket<(), R>,
    stream: S,
    host: &str,
    path: &str,
    headers: &[(&str, &str)],
    ok: bool,
    r: Result<(WebSocket<S, R>, HandshakeTask), (Error, WebSocket<(), R>, S)>,
)
    requires
        call_ensures(check_request_parts, (host, path, headers), ok),
        call_ensures(
            WebSocket::<(), R>::try_connect_with_headers::<S>,
            (ws, stream, host, path, headers),
            r,
        ),
    ensures
        !ok ==> r == Err::<(WebSocket<S, R>, HandshakeTask), (Error, WebSocket<(), R>, S)>(
            (Error::Fatal(CallerError::InvalidHeaderValue), ws, stream),
        ),
        ok ==> (r matches Ok((ws1, task)) && ws1.stream == stream && task is Writing),
{
}

/// A response is accepted only with the status 101 of HTTP/1.1.
pub proof fn law_response_status(
    head: &[u8],
    line_ends: &Vec<usize>,
    key: &[u8],
    offered: &Option<String>,
    r: Result<Option<String>, ConnectionError>,
)
    requires
        call_ensures(check_response, (head, line_ends, key, offered), r),
    ensures
        ({
            let status = encode_utf8("HTTP/1.1 101"@);
            let good = status.len() < head@.len() && head@.take(status.len() as int) == status && (
            head@[status.len() as int] == 32 || head@[status.len() as int] == 13
                || head@[status.len() as int] == 10);
            !good ==> r == Err::<Option<String>, ConnectionError>(ConnectionError::BadStatus)
        }),
{
}

/// A header's name is what stands before the first colon, whatever its case, and
/// its value what stands behind it, without the whitespace around it.
pub proof fn law_header_field(name: Seq<u8>, value: Seq<u8>, want: Seq<u8>)
    requires
        forall|i: int| 0 <= i < name.len() ==> name[i] != 58,
    ensures
        field(name + seq![58u8] + value, want) == (if eq_no_case(name, want) {
            Some(trimmed(value))
        } else {
            None
        }),
        field(name, want) is None,
{
    let line = name + seq![58u8] + value;
    lemma_find_is(line, 58u8, name.len() as int);
    lemma_find_is(name, 58u8, name.len() as int);
    assert(line.take(name.len() as int) =~= name);
    assert(line.skip(name.len() as int + 1) =~= value);
}

/// A list holds its items: those between commas, without the whitespace around
/// them, whatever their case.
pub proof fn law_token_in_list(item: Seq<u8>, more: Seq<u8>, token: Seq<u8>)
    requires
        forall|i: int| 0 <= i < item.len() ==> item[i] != 44,
    ensures
        has_token(item, token) <==> eq_no_case(trimmed(item), token),
        has_token(item + seq![44u8] + more, token) <==> eq_no_case(trimmed(item), token)
            || has_token(more, token),
{
    let list = item + seq![44u8] + more;
    lemma_find_is(list, 44u8, item.len() as int);
    lemma_find_is(item, 44u8, item.len() as int);
    assert(list.take(item.len() as int) =~= item);
    assert(list.skip(item.len() as int + 1) =~= more);
    assert(item.take(item.len() as int) =~= item);
}

/// A subprotocol is agreed on only if it was offered, as it was written; that
/// the server selects none is fine.
pub proof fn law_selected_subprotocol(
    item: Seq<char>,
    more: Seq<char>,
    selected: Seq<char>,
    offered: Option<Seq<char>>,
)
    requires
        forall|i: int| 0 <= i < item.len() ==> item[i] != ',',
    ensures
        offers(item, selected) <==> trim(item) == selected,
        offers(item + seq![','] + more, selected) <==> trim(item) == selected || offers(
            more,
            selected,
        ),
        selection(None, offered) == Ok::<Option<Seq<char>>, ConnectionError>(None),
        offered is None ==> selection(Some(encode_utf8(selected)), offered) == Err::<
            Option<Seq<char>>,
            ConnectionError,
        >(ConnectionError::InvalidSubprotocol),
        offered matches Some(list) ==> {
            &&& offers(list, selected) ==> selection(Some(encode_utf8(selected)), offered) == Ok::<
                Option<Seq<char>>,
                ConnectionError,
            >(Some(selected))
            &&& !offers(list, selected) ==> selection(Some(encode_utf8(selected)), offered) == Err::<
                Option<Seq<char>>,
                ConnectionError,
            >(ConnectionError::InvalidSubprotocol)
        },
{
    let list = item + seq![','] + more;
    lemma_find_is(list, ',', item.len() as int);
    lemma_find_is(item, ',', item.len() as int);
    assert(list.take(item.len() as int) =~= item);
    assert(list.skip(item.len() as int + 1) =~= more);
    assert(item.take(item.len() as int) =~= item);
    encode_utf8_valid_utf8(selected);
    encode_utf8_decode_utf8(selected);
}

/// The request is written, then flushed, then the response is read.  A stream
/// that takes nothing, or fails, fails the handshake.
pub proof fn law_handshake_goes_on<S, R: Rng>(
    ws: &mut WebSocket<S, R>,
    task: HandshakeTask,
    reply: Reply,
    r: HandshakeProgress,
)
    requires
        call_ensures(WebSocket::<S, R>::resume_handshake, (ws, task, reply), r),
    ensures
        final(ws).rng == old(ws).rng,
        final(ws).stream == old(ws).stream,
        task matches HandshakeTask::Writing { key } ==> {
            let unsent = old(ws).bufs.send.unsent_bytes();
            &&& reply matches Reply::Written(Ok(n)) ==> {
                &&& 0 < n < unsent.len() ==> r == HandshakeProgress::Pending(task)
                    && final(ws).bufs.send.unsent_bytes() == unsent.skip(n as int)
                &&& 0 < n == unsent.len() ==> r == HandshakeProgress::Pending(
                    HandshakeTask::Flushing { key },
                )
                &&& n == 0 ==> r matches HandshakeProgress::Done(Err(ConnectionError::Io(_)))
            }
            &&& reply matches Reply::Written(Err(e)) ==> {
                &&& e.kind == IoErrorKind::Interrupted ==> r == HandshakeProgress::Pending(task)
                &&& e.kind != IoErrorKind::Interrupted ==> r == HandshakeProgress::Done(
                    Err(ConnectionError::Io(e)),
                )
            }
        },
        task matches HandshakeTask::Reading { key, scan } ==> {
            &&& reply matches Reply::Read(Ok(n)) ==> (n == 0 ==> r == HandshakeProgress::Done(
                Err(ConnectionError::Closed),
            ))
            &&& reply matches Reply::Read(Err(e)) ==> {
                &&& e.kind == IoErrorKind::Interrupted ==> r == HandshakeProgress::Pending(task)
                &&& e.kind != IoErrorKind::Interrupted && e.kind != IoErrorKind::WouldBlock
                    && e.kind != IoErrorKind::TimedOut ==> r == HandshakeProgress::Done(
                    Err(ConnectionError::Io(e)),
                )
            }
        },
{
}

/// A response's headers end with the first empty line that follows another one,
/// whether lines end with a line feed alone or with a carriage return before
/// it.  If they do not end within 8192 bytes, they are too large.
pub proof fn law_headers_end(data: Seq<u8>, end: int)
    ensures
        2 <= end <= 8192 && end <= data.len() && data[end - 1] == 10 && (data[end - 2] == 10 || (end
            >= 3 && data[end - 2] == 13 && data[end - 3] == 10)) && (forall|k: int|
            0 < k < end - 1 && #[trigger] data[k] == 10 ==> data[k - 1] != 10 && !(k >= 2
                && data[k - 1] == 13 && data[k - 2] == 10)) ==> header_search(data) == Ok::<
            Option<usize>,
            ConnectionError,
        >(Some(end as usize)),
        (forall|k: int|
            0 < k < data.len() && #[trigger] data[k] == 10 ==> data[k - 1] != 10 && !(k >= 2
                && data[k - 1] == 13 && data[k - 2] == 10)) ==> header_search(data) == if data.len()
            < 8192 {
            Ok::<Option<usize>, ConnectionError>(None)
        } else {
            Err(ConnectionError::HeadersTooLarge)
        },
{
    let seen = header_window(data);
    assert forall|k: int| 0 <= k < seen.len() implies seen[k] == data[k] by {}
    if 2 <= end <= 8192 && end <= data.len() && data[end - 1] == 10 && (data[end - 2] == 10 || (end
        >= 3 && data[end - 2] == 13 && data[end - 3] == 10)) && (forall|k: int|
        0 < k < end - 1 && #[trigger] data[k] == 10 ==> data[k - 1] != 10 && !(k >= 2 && data[k
            - 1] == 13 && data[k - 2] == 10)) {
        assert(seen[end - 1] == data[end - 1] && seen[end - 2] == data[end - 2]);
        assert(end >= 3 ==> seen[end - 3] == data[end - 3]);
        assert(blank_line_at(seen, end - 1));
        assert forall|k: int| k < end - 1 implies !#[trigger] blank_line_at(seen, k) by {
            if 0 < k {
                assert(seen[k] == data[k] && seen[k - 1] == data[k - 1]);
                assert(k >= 2 ==> seen[k - 2] == data[k - 2]);
            }
        }
        assert(header_block_ends(seen, end));
        lemma_header_search(data, end);
    }
    if forall|k: int|
        0 < k < data.len() && #[trigger] data[k] == 10 ==> data[k - 1] != 10 && !(k >= 2 && data[k
            - 1] == 13 && data[k - 2] == 10) {
        assert forall|e: int| !#[trigger] header_block_ends(seen, e) by {
            let k = e - 1;
            if blank_line_at(seen, k) {
                assert(seen[k] == data[k] && seen[k - 1] == data[k - 1]);
                assert(k >= 2 ==> seen[k - 2] == data[k - 2]);
            }
        }
    }
}

/// When the response is all there and acceptable, the connection is established:
/// what follows the headers stays to be read, and the subprotocol that the
/// server selected is known.  One that is not acceptable fails with its reason.
pub proof fn law_handshake_succeeds<S, R: Rng>(
    ws: &mut WebSocket<S, R>,
    key: Vec<u8>,
    end: usize,
    r: HandshakeProgress,
)
    requires
        call_ensures(
            WebSocket::<S, R>::resume_handshake,
            (ws, HandshakeTask::Flushing { key }, Reply::Flushed(Ok(()))),
            r,
        ),
        header_search(old(ws).bufs.read.pending_bytes()) == Ok::<Option<usize>, ConnectionError>(
            Some(end),
        ),
    ensures
        ({
            let pending = old(ws).bufs.read.pending_bytes();
            let accept = base64_standard(
                sha1_digest(key@ + encode_utf8("258EAFA5-E914-47DA-95CA-C5AB0DC85B11"@)),
            );
            match response_result(
                pending.take(end as int),
                accept,
                opt_text(old(ws).sess.subprotocols),
            ) {
                Ok(selected) => {
                    &&& r == HandshakeProgress::Done(Ok(()))
                    &&& final(ws).bufs.read.pending_bytes() == pending.skip(end as int)
                    &&& selected is Some ==> opt_text(final(ws).sess.negotiated_subprotocol)
                        == selected
                },
                Err(e) => r == HandshakeProgress::Done(Err(e)),
            }
        }),
{
}

/// However a connection is begun, the request is for that host and path, over
/// that stream, with those headers.
pub proof fn law_connection_is_begun<S, R: Rng>(
    ws: WebSocket<(), R>,
    stream: S,
    host: &str,
    path: &str,
    headers: &[(&str, &str)],
    plain: Result<(WebSocket<S, R>, HandshakeTask), (Error, WebSocket<(), R>, S)>,
    with: Result<(WebSocket<S, R>, HandshakeTask), (Error, WebSocket<(), R>, S)>,
    dropped: Result<(WebSocket<S, R>, HandshakeTask), Error>,
    dropped_with: Result<(WebSocket<S, R>, HandshakeTask), Error>,
)
    requires
        call_ensures(WebSocket::<(), R>::try_connect::<S>, (ws, stream, host, path), plain),
        call_ensures(
            WebSocket::<(), R>::try_connect_with_headers::<S>,
            (ws, stream, host, path, headers),
            with,
        ),
        call_ensures(WebSocket::<(), R>::connect::<S>, (ws, stream, host, path), dropped),
        call_ensures(
            WebSocket::<(), R>::connect_with_headers::<S>,
            (ws, stream, host, path, headers),
            dropped_with,
        ),
    ensures
        ({
            let offered = opt_text(ws.sess.subprotocols);
            &&& plain matches Ok((w, task)) ==> w.stream == stream && w.bufs.send.unsent_bytes()
                == upgrade_request(host@, path@, task.key(), offered, Seq::empty())
            &&& with matches Ok((w, task)) ==> w.stream == stream && w.bufs.send.unsent_bytes()
                == upgrade_request(host@, path@, task.key(), offered, headers@)
            &&& dropped matches Ok((w, task)) ==> w.stream == stream && w.bufs.send.unsent_bytes()
                == upgrade_request(host@, path@, task.key(), offered, Seq::empty())
            &&& dropped_with matches Ok((w, task)) ==> w.stream == stream
                && w.bufs.send.unsent_bytes() == upgrade_request(
                host@,
                path@,
                task.key(),
                offered,
                headers@,
            )
        }),
        plain is Ok <==> dropped is Ok,
        with is Ok <==> dropped_with is Ok,
        dropped matches Err(e) ==> e == Error::Fatal(CallerError::InvalidHeaderValue),
        dropped_with matches Err(e) ==> e == Error::Fatal(CallerError::InvalidHeaderValue),
{
}

/// The subprotocol that was agreed on.
pub proof fn law_subprotocol<S, R: Rng>(ws: &WebSocket<S, R>, r: Option<&str>)
    requires
        call_ensures(WebSocket::<S, R>::subprotocol, (ws,), r),
    ensures
        ws.sess.negotiated_subprotocol is None <==> r is None,
        ws.sess.negotiated_subprotocol is Some ==> r->0@ == ws.sess.negotiated_subprotocol->0@,
{
}

} // verus!
