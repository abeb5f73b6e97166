//! A server that answers as the protocol says is accepted.
use vstd::prelude::*;
use vstd::utf8::{encode_utf8, is_ascii_chars, is_ascii_chars_encode_utf8};

use crate::bytes::{
    ascii_lower, eq_no_case, has_prefix, is_ascii_space, lemma_find_is, trim_end, trim_start,
};
use crate::digest::is_base64_byte;
use crate::ws::error::ConnectionError;
use crate::ws::handshake::{
    any_field_has, field, first_field, has_token, header_line, lemma_newlines_bound, line_start,
    lines, newlines, no_colon, response_result, status_ok, strip_cr,
};

verus! {

/// The status line of a response that agrees to the upgrade.
pub open spec fn switching_protocols() -> Seq<u8> {
    encode_utf8("HTTP/1.1 101 Switching Protocols"@)
}

/// A response that agrees to the upgrade, with the given answer to the key.
pub open spec fn agreeing_response(accept: Seq<u8>) -> Seq<u8> {
    switching_protocols() + encode_utf8("\r\n"@) + header_line(
        encode_utf8("Upgrade"@),
        encode_utf8("websocket"@),
    ) + header_line(encode_utf8("Connection"@), encode_utf8("Upgrade"@)) + header_line(
        encode_utf8("Sec-WebSocket-Accept"@),
        accept,
    ) + encode_utf8("\r\n"@)
}

spec fn no_lf(s: Seq<u8>) -> bool {
    forall|i: int| 0 <= i < s.len() ==> #[trigger] s[i] != 10
}

/// Newlines further on by `n`.
spec fn shifted(s: Seq<int>, n: int) -> Seq<int> {
    Seq::new(s.len(), |i: int| s[i] + n)
}

proof fn lemma_newlines_join(a: Seq<u8>, b: Seq<u8>)
    ensures
        newlines(a + b) == newlines(a) + shifted(newlines(b), a.len() as int),
    decreases b.len(),
{
    if b.len() == 0 {
        assert(a + b =~= a);
        assert(newlines(a) + shifted(newlines(b), a.len() as int) =~= newlines(a));
    } else {
        let init = b.drop_last();
        lemma_newlines_join(a, init);
        assert((a + b).drop_last() =~= a + init);
        assert((a + b).last() == b.last());
        assert(newlines(a + b) =~= newlines(a) + shifted(newlines(b), a.len() as int));
    }
}

proof fn lemma_no_newlines(a: Seq<u8>)
    requires
        no_lf(a),
    ensures
        newlines(a) == Seq::<int>::empty(),
    decreases a.len(),
{
    if a.len() > 0 {
        lemma_no_newlines(a.drop_last());
    }
}

/// The lines of a text are its first line, and the lines of the rest.
proof fn lemma_first_line(line: Seq<u8>, rest: Seq<u8>)
    requires
        no_lf(line),
    ensures
        lines(line + seq![13u8, 10u8] + rest) == seq![line] + lines(rest),
{
    let front = line + seq![13u8, 10u8];
    let all = front + rest;
    let n = front.len() as int;
    lemma_newlines_join(front, rest);
    assert(front.drop_last() =~= line + seq![13u8]);
    assert(no_lf(front.drop_last()));
    lemma_no_newlines(front.drop_last());
    assert(newlines(front) =~= seq![n - 1]);
    lemma_newlines_bound(rest);
    let want = seq![line] + lines(rest);
    assert(lines(all).len() == want.len());
    assert forall|i: int| 0 <= i < want.len() implies #[trigger] lines(all)[i] == want[i] by {
        if i == 0 {
            assert(newlines(all)[0] == n - 1);
            assert(all.subrange(0, n - 1) =~= line + seq![13u8]);
            assert(strip_cr(line + seq![13u8]) =~= line);
        } else {
            assert(newlines(all)[i] == newlines(rest)[i - 1] + n);
            assert(line_start(all, i) == line_start(rest, i - 1) + n);
            assert(all.subrange(line_start(all, i), newlines(all)[i]) =~= rest.subrange(
                line_start(rest, i - 1),
                newlines(rest)[i - 1],
            ));
        }
    }
    assert(lines(all) =~= want);
}

/// A value without whitespace at its ends.
spec fn tight(value: Seq<u8>) -> bool {
    value.len() > 0 ==> !is_ascii_space(value[0]) && !is_ascii_space(value.last())
}

/// A header line is read as it was written.
proof fn lemma_field(name: Seq<u8>, value: Seq<u8>, want: Seq<u8>)
    requires
        no_colon(name),
        tight(value),
    ensures
        field(name + seq![58u8, 32u8] + value, want) == (if eq_no_case(name, want) {
            Some(value)
        } else {
            None
        }),
{
    let line = name + seq![58u8, 32u8] + value;
    lemma_find_is(line, 58u8, name.len() as int);
    assert(line.take(name.len() as int) =~= name);
    let rest = line.skip(name.len() as int + 1);
    assert(rest =~= seq![32u8] + value);
    assert(rest.skip(1) =~= value);
    assert(trim_start(value) == value);
    assert(trim_start(rest) == value);
    assert(trim_end(value) == value);
}

proof fn lemma_no_field(line: Seq<u8>, want: Seq<u8>)
    requires
        no_colon(line),
    ensures
        field(line, want) is None,
{
    lemma_find_is(line, 58u8, line.len() as int);
}

/// ASCII without colons, commas and newlines.
spec fn plain(s: Seq<char>) -> bool {
    forall|i: int|
        0 <= i < s.len() ==> {
            let c = #[trigger] s[i];
            ' ' <= c <= '~' && c != ':' && c != ','
        }
}

proof fn lemma_plain(s: Seq<char>)
    requires
        plain(s),
    ensures
        encode_utf8(s).len() == s.len(),
        forall|i: int| 0 <= i < s.len() ==> #[trigger] encode_utf8(s)[i] == s[i] as u8,
        no_colon(encode_utf8(s)),
        no_lf(encode_utf8(s)),
        forall|i: int| 0 <= i < s.len() ==> #[trigger] encode_utf8(s)[i] != 44,
{
    assert(is_ascii_chars(s)) by {
        assert forall|i: int| 0 <= i < s.len() implies '\0' <= #[trigger] s[i] <= '\u{7f}' by {
            assert(' ' <= s[i] <= '~');
        }
    }
    is_ascii_chars_encode_utf8(s);
    let b = encode_utf8(s);
    assert forall|i: int| 0 <= i < s.len() implies {
        let x = #[trigger] b[i];
        x != 58 && x != 10 && x != 44
    } by {
        assert(' ' <= s[i] <= '~');
        assert(s[i] as u8 == b[i]);
    }
}

proof fn lemma_no_case(a: Seq<char>, b: Seq<char>)
    requires
        plain(a),
        plain(b),
        a.len() == b.len(),
        forall|i: int|
            0 <= i < a.len() ==> ascii_lower(#[trigger] a[i] as u8) == ascii_lower(b[i] as u8),
    ensures
        eq_no_case(encode_utf8(a), encode_utf8(b)),
{
    lemma_plain(a);
    lemma_plain(b);
    let x = encode_utf8(a);
    let y = encode_utf8(b);
    assert forall|i: int| 0 <= i < x.len() implies ascii_lower(#[trigger] x[i]) == ascii_lower(
        y[i],
    ) by {
        assert(x[i] == a[i] as u8 && y[i] == b[i] as u8);
    }
}

proof fn lemma_separators()
    ensures
        encode_utf8("\r\n"@) == seq![13u8, 10u8],
        encode_utf8(": "@) == seq![58u8, 32u8],
{
    reveal_strlit("\r\n");
    reveal_strlit(": ");
    is_ascii_chars_encode_utf8("\r\n"@);
    is_ascii_chars_encode_utf8(": "@);
    assert(encode_utf8("\r\n"@) =~= seq![13u8, 10u8]);
    assert(encode_utf8(": "@) =~= seq![58u8, 32u8]);
}

proof fn lemma_names()
    ensures
        plain("Upgrade"@) && "Upgrade"@.len() == 7,
        plain("upgrade"@) && "upgrade"@.len() == 7,
        plain("Connection"@) && "Connection"@.len() == 10,
        plain("connection"@) && "connection"@.len() == 10,
        plain("websocket"@) && "websocket"@.len() == 9,
        plain("Sec-WebSocket-Accept"@) && "Sec-WebSocket-Accept"@.len() == 20,
        plain("sec-websocket-accept"@) && "sec-websocket-accept"@.len() == 20,
        plain("sec-websocket-protocol"@) && "sec-websocket-protocol"@.len() == 22,
        eq_no_case(encode_utf8("Upgrade"@), encode_utf8("upgrade"@)),
        eq_no_case(encode_utf8("Connection"@), encode_utf8("connection"@)),
        eq_no_case(encode_utf8("Sec-WebSocket-Accept"@), encode_utf8("sec-websocket-accept"@)),
        tight(encode_utf8("websocket"@)),
        tight(encode_utf8("Upgrade"@)),
{
    reveal_strlit("Upgrade");
    reveal_strlit("upgrade");
    reveal_strlit("Connection");
    reveal_strlit("connection");
    reveal_strlit("websocket");
    reveal_strlit("Sec-WebSocket-Accept");
    reveal_strlit("sec-websocket-accept");
    reveal_strlit("sec-websocket-protocol");
    lemma_plain("websocket"@);
    lemma_plain("Upgrade"@);
    lemma_no_case("Upgrade"@, "upgrade"@);
    lemma_no_case("Connection"@, "connection"@);
    lemma_no_case("Sec-WebSocket-Accept"@, "sec-websocket-accept"@);
    assert(encode_utf8("websocket"@)[0] == 'w' as u8);
    assert(encode_utf8("websocket"@)[8] == 't' as u8);
    assert(encode_utf8("Upgrade"@)[0] == 'U' as u8);
    assert(encode_utf8("Upgrade"@)[6] == 'e' as u8);
}

proof fn lemma_status_line()
    ensures
        plain("HTTP/1.1 101 Switching Protocols"@),
        has_prefix(switching_protocols(), encode_utf8("HTTP/1.1 101"@)),
        encode_utf8("HTTP/1.1 101"@).len() == 12,
        switching_protocols().len() == 32,
        switching_protocols()[12] == 32,
{
    reveal_strlit("HTTP/1.1 101 Switching Protocols");
    reveal_strlit("HTTP/1.1 101");
    lemma_plain("HTTP/1.1 101 Switching Protocols"@);
    lemma_plain("HTTP/1.1 101"@);
    let a = switching_protocols();
    let b = encode_utf8("HTTP/1.1 101"@);
    assert forall|i: int| 0 <= i < 12 implies #[trigger] a[i] == b[i] by {
        assert("HTTP/1.1 101 Switching Protocols"@[i] == "HTTP/1.1 101"@[i]);
    }
    assert(a.take(12) =~= b);
    assert("HTTP/1.1 101 Switching Protocols"@[12] == ' ');
}

/// The first header of a name among five lines.
proof fn lemma_first_of_five(
    a: Seq<u8>,
    b: Seq<u8>,
    c: Seq<u8>,
    d: Seq<u8>,
    e: Seq<u8>,
    name: Seq<u8>,
)
    requires
        field(a, name) is None,
        field(b, name) is None,
        field(c, name) is None,
        field(e, name) is None,
    ensures
        first_field(seq![a, b, c, d, e], name) == field(d, name),
{
    let l1 = seq![a];
    let l2 = seq![a, b];
    let l3 = seq![a, b, c];
    let l4 = seq![a, b, c, d];
    let l5 = seq![a, b, c, d, e];
    assert(l1.drop_last() =~= Seq::<Seq<u8>>::empty());
    assert(l2.drop_last() =~= l1);
    assert(l3.drop_last() =~= l2);
    assert(l4.drop_last() =~= l3);
    assert(l5.drop_last() =~= l4);
    assert(first_field(Seq::<Seq<u8>>::empty(), name) is None);
    assert(first_field(l1, name) is None);
    assert(first_field(l2, name) is None);
    assert(first_field(l3, name) is None);
    assert(first_field(l4, name) == field(d, name));
}

/// A response that has the right status, answers the key and agrees to the
/// upgrade is accepted, whatever was offered: no subprotocol is selected.
pub proof fn law_agreeing_response_is_accepted(accept: Seq<u8>, offered: Option<Seq<char>>)
    requires
        forall|i: int| 0 <= i < accept.len() ==> is_base64_byte(#[trigger] accept[i]),
    ensures
        response_result(agreeing_response(accept), accept, offered) == Ok::<
            Option<Seq<char>>,
            ConnectionError,
        >(None),
{
    let head = agreeing_response(accept);
    let status = switching_protocols();
    let upgrade = encode_utf8("Upgrade"@);
    let connection = encode_utf8("Connection"@);
    let accept_name = encode_utf8("Sec-WebSocket-Accept"@);
    let websocket = encode_utf8("websocket"@);
    let w_upgrade = encode_utf8("upgrade"@);
    let w_connection = encode_utf8("connection"@);
    let w_accept = encode_utf8("sec-websocket-accept"@);
    let w_protocol = encode_utf8("sec-websocket-protocol"@);
    lemma_separators();
    lemma_names();
    lemma_status_line();
    lemma_plain("HTTP/1.1 101 Switching Protocols"@);
    lemma_plain("Upgrade"@);
    lemma_plain("upgrade"@);
    lemma_plain("Connection"@);
    lemma_plain("connection"@);
    lemma_plain("Sec-WebSocket-Accept"@);
    lemma_plain("sec-websocket-accept"@);
    lemma_plain("sec-websocket-protocol"@);
    lemma_plain("websocket"@);
    let sep = seq![58u8, 32u8];
    let crlf = seq![13u8, 10u8];
    let l1 = upgrade + sep + websocket;
    let l2 = connection + sep + upgrade;
    let l3 = accept_name + sep + accept;
    let none = Seq::<u8>::empty();
    let r4 = none + crlf + none;
    let r3 = l3 + crlf + r4;
    let r2 = l2 + crlf + r3;
    let r1 = l1 + crlf + r2;
    assert(head =~= status + crlf + r1);
    assert(no_lf(l1));
    assert(no_lf(l2));
    assert(no_lf(l3)) by {
        assert forall|i: int| 0 <= i < l3.len() implies #[trigger] l3[i] != 10 by {
            if i >= accept_name.len() + 2 {
                assert(l3[i] == accept[i - accept_name.len() - 2]);
            }
        }
    }
    lemma_first_line(none, none);
    lemma_first_line(l3, r4);
    lemma_first_line(l2, r3);
    lemma_first_line(l1, r2);
    lemma_first_line(status, r1);
    assert(newlines(none) == Seq::<int>::empty());
    assert(lines(none) =~= Seq::<Seq<u8>>::empty());
    let all = seq![status, l1, l2, l3, none];
    assert(lines(head) =~= all);
    assert(tight(accept)) by {
        if accept.len() > 0 {
            assert(is_base64_byte(accept[0]) && is_base64_byte(accept[accept.len() - 1]));
        }
    }
    lemma_no_field(status, w_accept);
    lemma_no_field(none, w_accept);
    lemma_field(upgrade, websocket, w_accept);
    lemma_field(connection, upgrade, w_accept);
    lemma_field(accept_name, accept, w_accept);
    lemma_first_of_five(status, l1, l2, l3, none, w_accept);
    lemma_no_field(status, w_protocol);
    lemma_no_field(none, w_protocol);
    lemma_field(upgrade, websocket, w_protocol);
    lemma_field(connection, upgrade, w_protocol);
    lemma_field(accept_name, accept, w_protocol);
    lemma_first_of_five(status, l1, l2, l3, none, w_protocol);
    assert(field(all[1], w_upgrade) == Some(websocket)) by {
        lemma_field(upgrade, websocket, w_upgrade);
    }
    lemma_find_is(websocket, 44u8, websocket.len() as int);
    assert(websocket.take(websocket.len() as int) =~= websocket);
    assert(trim_start(websocket) == websocket);
    assert(has_token(websocket, websocket));
    assert(field(all[2], w_connection) == Some(upgrade)) by {
        lemma_field(connection, upgrade, w_connection);
    }
    lemma_find_is(upgrade, 44u8, upgrade.len() as int);
    assert(upgrade.take(upgrade.len() as int) =~= upgrade);
    assert(trim_start(upgrade) == upgrade);
    assert(has_token(upgrade, w_upgrade));
    assert(any_field_has(all, w_upgrade, websocket));
    assert(any_field_has(all, w_connection, w_upgrade));
    assert(status_ok(head)) by {
        let prefix = encode_utf8("HTTP/1.1 101"@);
        assert(head.take(prefix.len() as int) =~= prefix);
        assert(head[12] == status[12]);
    }
}

/// Headers as a server sends them, with the blank line that ends them.
pub open spec fn header_block(headers: Seq<(Seq<u8>, Seq<u8>)>) -> Seq<u8>
    decreases headers.len(),
{
    if headers.len() == 0 {
        encode_utf8("\r\n"@)
    } else {
        header_line(headers[0].0, headers[0].1) + header_block(headers.skip(1))
    }
}

/// A header that fits on its line: no colon in the name, no line end, and no
/// whitespace around the value.
pub open spec fn header_fits(name: Seq<u8>, value: Seq<u8>) -> bool {
    &&& forall|i: int| 0 <= i < name.len() ==> #[trigger] name[i] != 58 && name[i] != 10
    &&& forall|i: int| 0 <= i < value.len() ==> #[trigger] value[i] != 10
    &&& value.len() > 0 ==> !is_ascii_space(value[0]) && !is_ascii_space(value.last())
}

proof fn lemma_block_lines(headers: Seq<(Seq<u8>, Seq<u8>)>)
    requires
        forall|i: int|
            0 <= i < headers.len() ==> #[trigger] header_fits(headers[i].0, headers[i].1),
    ensures
        lines(header_block(headers)).len() == headers.len() + 1,
        forall|i: int|
            0 <= i < headers.len() ==> #[trigger] lines(header_block(headers))[i] == headers[i].0
                + seq![58u8, 32u8] + headers[i].1,
        lines(header_block(headers))[headers.len() as int] == Seq::<u8>::empty(),
    decreases headers.len(),
{
    lemma_separators();
    let none = Seq::<u8>::empty();
    if headers.len() == 0 {
        lemma_first_line(none, none);
        assert(none + seq![13u8, 10u8] + none =~= header_block(headers));
        assert(newlines(none) == Seq::<int>::empty());
        assert(lines(none) =~= Seq::<Seq<u8>>::empty());
    } else {
        let more = headers.skip(1);
        assert forall|i: int| 0 <= i < more.len() implies #[trigger] header_fits(
            more[i].0,
            more[i].1,
        ) by {
            assert(more[i] == headers[i + 1]);
            assert(header_fits(headers[i + 1].0, headers[i + 1].1));
        }
        lemma_block_lines(more);
        let (name, value) = headers[0];
        assert(header_fits(headers[0].0, headers[0].1));
        let line = name + seq![58u8, 32u8] + value;
        assert(no_lf(line)) by {
            assert forall|i: int| 0 <= i < line.len() implies #[trigger] line[i] != 10 by {
                if i < name.len() {
                    assert(line[i] == name[i]);
                } else if i >= name.len() + 2 {
                    assert(line[i] == value[i - name.len() - 2]);
                }
            }
        }
        lemma_first_line(line, header_block(more));
        assert(line + seq![13u8, 10u8] + header_block(more) =~= header_block(headers));
        let all = lines(header_block(headers));
        assert forall|i: int| 0 <= i < headers.len() implies #[trigger] all[i] == headers[i].0
            + seq![58u8, 32u8] + headers[i].1 by {
            if i > 0 {
                assert(all[i] == lines(header_block(more))[i - 1]);
                assert(more[i - 1] == headers[i]);
            }
        }
    }
}

proof fn lemma_first_field_none(all: Seq<Seq<u8>>, name: Seq<u8>)
    requires
        forall|i: int| 0 <= i < all.len() ==> field(#[trigger] all[i], name) is None,
    ensures
        first_field(all, name) is None,
    decreases all.len(),
{
    if all.len() > 0 {
        let init = all.drop_last();
        assert forall|i: int| 0 <= i < init.len() implies field(
            #[trigger] init[i],
            name,
        ) is None by {
            assert(init[i] == all[i]);
        }
        lemma_first_field_none(init, name);
        assert(all.last() == all[all.len() - 1]);
    }
}

proof fn lemma_first_field_at(all: Seq<Seq<u8>>, name: Seq<u8>, k: int)
    requires
        0 <= k < all.len(),
        field(all[k], name) is Some,
        forall|i: int| 0 <= i < k ==> field(#[trigger] all[i], name) is None,
    ensures
        first_field(all, name) == field(all[k], name),
    decreases all.len(),
{
    let init = all.drop_last();
    if k == all.len() - 1 {
        assert forall|i: int| 0 <= i < init.len() implies field(
            #[trigger] init[i],
            name,
        ) is None by {
            assert(init[i] == all[i]);
        }
        lemma_first_field_none(init, name);
    } else {
        assert(init[k] == all[k]);
        assert forall|i: int| 0 <= i < k implies field(#[trigger] init[i], name) is None by {
            assert(init[i] == all[i]);
        }
        lemma_first_field_at(init, name, k);
    }
}

/// A response: the right status line, and some headers.
pub open spec fn response_with(headers: Seq<(Seq<u8>, Seq<u8>)>) -> Seq<u8> {
    switching_protocols() + encode_utf8("\r\n"@) + header_block(headers)
}

/// The lines of such a response, as far as its headers go.
proof fn lemma_response_fields(headers: Seq<(Seq<u8>, Seq<u8>)>, want: Seq<u8>)
    requires
        forall|i: int|
            0 <= i < headers.len() ==> #[trigger] header_fits(headers[i].0, headers[i].1),
    ensures
        status_ok(response_with(headers)),
        ({
            let all = lines(response_with(headers));
            &&& all.len() == headers.len() + 2
            &&& field(all[0], want) is None
            &&& forall|i: int|
                0 <= i < headers.len() ==> field(#[trigger] all[i + 1], want) == if eq_no_case(
                    headers[i].0,
                    want,
                ) {
                    Some(headers[i].1)
                } else {
                    None
                }
            &&& field(all[headers.len() as int + 1], want) is None
        }),
{
    let head = response_with(headers);
    let status = switching_protocols();
    lemma_separators();
    lemma_status_line();
    lemma_plain("HTTP/1.1 101 Switching Protocols"@);
    lemma_block_lines(headers);
    lemma_first_line(status, header_block(headers));
    assert(head =~= status + seq![13u8, 10u8] + header_block(headers));
    let all = lines(head);
    assert(all == seq![status] + lines(header_block(headers)));
    lemma_no_field(status, want);
    assert forall|i: int| 0 <= i < headers.len() implies field(#[trigger] all[i + 1], want)
        == if eq_no_case(headers[i].0, want) {
        Some(headers[i].1)
    } else {
        None
    } by {
        assert(header_fits(headers[i].0, headers[i].1));
        assert(all[i + 1] == lines(header_block(headers))[i]);
        lemma_field(headers[i].0, headers[i].1, want);
    }
    assert(all[headers.len() as int + 1] == Seq::<u8>::empty());
    lemma_no_field(Seq::empty(), want);
    let prefix = encode_utf8("HTTP/1.1 101"@);
    assert(head.take(12) =~= prefix) by {
        assert(status.take(12) =~= prefix);
    }
    assert(head[12] == status[12]);
}

/// What a response to the upgrade request comes to, by its headers.  The first
/// answer to the key must be the right one; without any, or with another, the
/// response is refused.  So it is if no header agrees to the upgrade to
/// `websocket`, or no `Connection` header to the upgrade.
pub proof fn law_response_by_its_headers(
    headers: Seq<(Seq<u8>, Seq<u8>)>,
    accept: Seq<u8>,
    offered: Option<Seq<char>>,
    k: int,
)
    requires
        forall|i: int|
            0 <= i < headers.len() ==> #[trigger] header_fits(headers[i].0, headers[i].1),
    ensures
        ({
            let r = response_result(response_with(headers), accept, offered);
            let key = encode_utf8("sec-websocket-accept"@);
            let upgrade = encode_utf8("upgrade"@);
            let connection = encode_utf8("connection"@);
            let unanswered = forall|i: int|
                0 <= i < headers.len() ==> !eq_no_case((#[trigger] headers[i]).0, key);
            let first = 0 <= k < headers.len() && eq_no_case(headers[k].0, key) && forall|i: int|
                0 <= i < k ==> !eq_no_case((#[trigger] headers[i]).0, key);
            &&& unanswered ==> r == Err::<Option<Seq<char>>, ConnectionError>(
                ConnectionError::MissingAccept,
            )
            &&& first && headers[k].1 != accept ==> r == Err::<Option<Seq<char>>, ConnectionError>(
                ConnectionError::BadAccept,
            )
            &&& first && headers[k].1 == accept && (forall|i: int|
                0 <= i < headers.len() ==> !eq_no_case((#[trigger] headers[i]).0, upgrade)) ==> r
                == Err::<Option<Seq<char>>, ConnectionError>(ConnectionError::MissingUpgrade)
            &&& r is Ok ==> {
                &&& exists|i: int|
                    0 <= i < headers.len() && eq_no_case((#[trigger] headers[i]).0, upgrade)
                &&& exists|i: int|
                    0 <= i < headers.len() && eq_no_case((#[trigger] headers[i]).0, connection)
                &&& exists|i: int|
                    0 <= i < headers.len() && eq_no_case((#[trigger] headers[i]).0, key)
                        && headers[i].1 == accept
            }
        }),
{
    let head = response_with(headers);
    let all = lines(head);
    let key = encode_utf8("sec-websocket-accept"@);
    let upgrade = encode_utf8("upgrade"@);
    let connection = encode_utf8("connection"@);
    let websocket = encode_utf8("websocket"@);
    lemma_response_fields(headers, key);
    lemma_response_fields(headers, upgrade);
    lemma_response_fields(headers, connection);
    let unanswered = forall|i: int|
        0 <= i < headers.len() ==> !eq_no_case((#[trigger] headers[i]).0, key);
    if unanswered {
        assert forall|i: int| 0 <= i < all.len() implies field(#[trigger] all[i], key) is None by {
            if 1 <= i <= headers.len() {
                assert(all[(i - 1) + 1] == all[i]);
                assert(!eq_no_case(headers[i - 1].0, key));
            }
        }
        lemma_first_field_none(all, key);
    }
    if 0 <= k < headers.len() && eq_no_case(headers[k].0, key) && forall|i: int|
        0 <= i < k ==> !eq_no_case((#[trigger] headers[i]).0, key) {
        assert forall|i: int| 0 <= i < k + 1 implies field(#[trigger] all[i], key) is None by {
            if 1 <= i {
                assert(all[(i - 1) + 1] == all[i]);
                assert(!eq_no_case(headers[i - 1].0, key));
            }
        }
        assert(field(all[k + 1], key) == Some(headers[k].1));
        lemma_first_field_at(all, key, k + 1);
    }
    if any_field_has(all, upgrade, websocket) {
        lemma_named_header(headers, upgrade, websocket);
    }
    let r = response_result(head, accept, offered);
    if r is Ok {
        lemma_named_header(headers, upgrade, websocket);
        lemma_named_header(headers, connection, upgrade);
        if forall|i: int|
            0 <= i < headers.len() && eq_no_case((#[trigger] headers[i]).0, key) ==> headers[i].1
                != accept {
            lemma_first_answer(headers, key, accept);
        }
    }
}

proof fn lemma_named_header(headers: Seq<(Seq<u8>, Seq<u8>)>, name: Seq<u8>, token: Seq<u8>)
    requires
        forall|i: int|
            0 <= i < headers.len() ==> #[trigger] header_fits(headers[i].0, headers[i].1),
        any_field_has(lines(response_with(headers)), name, token),
    ensures
        exists|i: int| 0 <= i < headers.len() && eq_no_case((#[trigger] headers[i]).0, name),
{
    let all = lines(response_with(headers));
    lemma_response_fields(headers, name);
    let j = choose|j: int|
        0 <= j < all.len() && (#[trigger] field(all[j], name) matches Some(value) && has_token(
            value,
            token,
        ));
    assert(j != 0 && j != headers.len() + 1);
    assert(all[(j - 1) + 1] == all[j]);
    assert(eq_no_case(headers[j - 1].0, name));
}

proof fn lemma_first_answer(headers: Seq<(Seq<u8>, Seq<u8>)>, key: Seq<u8>, accept: Seq<u8>)
    requires
        forall|i: int|
            0 <= i < headers.len() ==> #[trigger] header_fits(headers[i].0, headers[i].1),
        forall|i: int|
            0 <= i < headers.len() && eq_no_case((#[trigger] headers[i]).0, key) ==> headers[i].1
                != accept,
    ensures
        first_field(lines(response_with(headers)), key) != Some(accept),
{
    let all = lines(response_with(headers));
    lemma_response_fields(headers, key);
    assert forall|i: int| 0 <= i < all.len() implies field(#[trigger] all[i], key) != Some(
        accept,
    ) by {
        if 1 <= i <= headers.len() {
            assert(all[(i - 1) + 1] == all[i]);
            assert(eq_no_case(headers[i - 1].0, key) ==> headers[i - 1].1 != accept);
        }
    }
    lemma_never_first(all, key, accept);
}

proof fn lemma_never_first(all: Seq<Seq<u8>>, name: Seq<u8>, value: Seq<u8>)
    requires
        forall|i: int| 0 <= i < all.len() ==> field(#[trigger] all[i], name) != Some(value),
    ensures
        first_field(all, name) != Some(value),
    decreases all.len(),
{
    if all.len() > 0 {
        let init = all.drop_last();
        assert forall|i: int| 0 <= i < init.len() implies field(#[trigger] init[i], name) != Some(
            value,
        ) by {
            assert(init[i] == all[i]);
        }
        lemma_never_first(init, name, value);
        assert(all.last() == all[all.len() - 1]);
    }
}

} // verus!
