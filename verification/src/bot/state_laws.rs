//! What was saved is what is loaded.
use vstd::prelude::*;

use crate::bot::names::{law_listing_is_determined, map_of};
use crate::bot::state::{
    channel_line, channel_lines, fields, labelled, loaded, message_line, message_lines, nothing,
    role_line, role_lines, state_text, text_lines, with_line, with_lines, without_cr, ManagedMsg,
    State, StateModel,
};
use crate::bot::tsv::{
    law_tsv_field_is_closed, law_tsv_round_trip, lemma_decimal_no_newline, lemma_name_no_newline,
    lemma_no_newline_join, no_newline, tsv_escaped,
};
use crate::bytes::lemma_find_is;
use crate::text::{decimal, is_digit, law_decimal_round_trip, parse_number};

verus! {

/// Holds neither tabs nor line ends.
pub open spec fn one_field(s: Seq<char>) -> bool {
    forall|i: int|
        0 <= i < s.len() ==> {
            let c = #[trigger] s[i];
            c != '\t' && c != '\n' && c != '\r'
        }
}

pub proof fn lemma_fields_step(first: Seq<char>, rest: Seq<char>, n: nat)
    requires
        one_field(first),
        n > 1,
    ensures
        fields(first + seq!['\t'] + rest, n) == seq![first] + fields(rest, (n - 1) as nat),
{
    let line = first + seq!['\t'] + rest;
    lemma_find_is(line, '\t', first.len() as int);
    assert(line.take(first.len() as int) =~= first);
    assert(line.skip(first.len() as int + 1) =~= rest);
}

pub proof fn lemma_fields_last(last: Seq<char>, n: nat)
    requires
        one_field(last),
    ensures
        fields(last, n) == seq![last],
{
    lemma_find_is(last, '\t', last.len() as int);
}

pub proof fn lemma_decimal_field(n: u64)
    ensures
        one_field(decimal(n as nat)),
        decimal(n as nat).len() > 0,
        parse_number(decimal(n as nat), u64::MAX as nat) == Some(n as nat),
{
    law_decimal_round_trip(n as nat, u64::MAX as nat);
    let s = decimal(n as nat);
    assert forall|i: int| 0 <= i < s.len() implies {
        let c = #[trigger] s[i];
        c != '\t' && c != '\n' && c != '\r'
    } by {
        assert(is_digit(s[i]));
    }
}

proof fn lemma_labelled(label: Seq<char>, n: u64)
    requires
        one_field(label),
    ensures
        labelled(label + decimal(n as nat), label) == Some(n),
        one_field(label + decimal(n as nat)),
{
    lemma_decimal_field(n);
    let s = label + decimal(n as nat);
    assert(s.take(label.len() as int) =~= label);
    assert(s.skip(label.len() as int) =~= decimal(n as nat));
    assert forall|i: int| 0 <= i < s.len() implies {
        let c = #[trigger] s[i];
        c != '\t' && c != '\n' && c != '\r'
    } by {
        if i < label.len() {
            assert(s[i] == label[i]);
        } else {
            assert(s[i] == decimal(n as nat)[i - label.len()]);
        }
    }
}

proof fn lemma_message_line(m: StateModel, name: Seq<char>, msg: ManagedMsg)
    ensures
        with_line(m, message_line(name, msg)) == (StateModel {
            managed: m.managed.insert(name, msg),
            ..m
        }),
{
    let line = message_line(name, msg);
    let tag = "MESSAGE"@;
    let id = "msg_id:"@ + decimal(msg.message_id as nat);
    let ch = "ch_id:"@ + decimal(msg.channel_id as nat);
    let hash = "hash:"@ + decimal(msg.content_hash as nat);
    reveal_strlit("MESSAGE");
    reveal_strlit("MESSAGE\t");
    reveal_strlit("msg_id:");
    reveal_strlit("\tmsg_id:");
    reveal_strlit("ch_id:");
    reveal_strlit("\tch_id:");
    reveal_strlit("hash:");
    reveal_strlit("\thash:");
    assert("MESSAGE\t"@ =~= tag + seq!['\t']);
    assert("\tmsg_id:"@ =~= seq!['\t'] + "msg_id:"@);
    assert("\tch_id:"@ =~= seq!['\t'] + "ch_id:"@);
    assert("\thash:"@ =~= seq!['\t'] + "hash:"@);
    law_tsv_field_is_closed(name);
    law_tsv_round_trip(name);
    lemma_labelled("msg_id:"@, msg.message_id);
    lemma_labelled("ch_id:"@, msg.channel_id);
    lemma_labelled("hash:"@, msg.content_hash);
    let t3 = ch + seq!['\t'] + hash;
    let t2 = id + seq!['\t'] + t3;
    let t1 = tsv_escaped(name) + seq!['\t'] + t2;
    assert(line =~= tag + seq!['\t'] + t1);
    lemma_fields_step(tag, t1, 5);
    lemma_fields_step(tsv_escaped(name), t2, 4);
    lemma_fields_step(id, t3, 3);
    lemma_fields_step(ch, hash, 2);
    lemma_fields_last(hash, 1);
    assert(fields(line, 5) =~= seq![tag, tsv_escaped(name), id, ch, hash]);
}

proof fn lemma_channel_line(m: StateModel, name: Seq<char>, id: u64)
    ensures
        with_line(m, channel_line(name, id)) == (StateModel {
            channels: m.channels.insert(name, id),
            ..m
        }),
{
    let line = channel_line(name, id);
    let tag = "CHANNEL"@;
    let ch = "ch_id:"@ + decimal(id as nat);
    reveal_strlit("CHANNEL");
    reveal_strlit("CHANNEL\t");
    reveal_strlit("ch_id:");
    reveal_strlit("\tch_id:");
    assert("CHANNEL\t"@ =~= tag + seq!['\t']);
    assert("\tch_id:"@ =~= seq!['\t'] + "ch_id:"@);
    law_tsv_field_is_closed(name);
    law_tsv_round_trip(name);
    lemma_labelled("ch_id:"@, id);
    let t1 = tsv_escaped(name) + seq!['\t'] + ch;
    assert(line =~= tag + seq!['\t'] + t1);
    lemma_fields_step(tag, t1, 5);
    lemma_fields_step(tsv_escaped(name), ch, 4);
    lemma_fields_last(ch, 3);
    assert(fields(line, 5) =~= seq![tag, tsv_escaped(name), ch]);
}

proof fn lemma_role_line(m: StateModel, name: Seq<char>, id: u64)
    ensures
        with_line(m, role_line(name, id)) == (StateModel {
            roles: m.roles.insert(name, id),
            ..m
        }),
{
    let line = role_line(name, id);
    let tag = "ROLE"@;
    let r = "role_id:"@ + decimal(id as nat);
    reveal_strlit("ROLE");
    reveal_strlit("CHANNEL");
    reveal_strlit("ROLE\t");
    reveal_strlit("role_id:");
    reveal_strlit("\trole_id:");
    assert("ROLE\t"@ =~= tag + seq!['\t']);
    assert("\trole_id:"@ =~= seq!['\t'] + "role_id:"@);
    law_tsv_field_is_closed(name);
    law_tsv_round_trip(name);
    lemma_labelled("role_id:"@, id);
    let t1 = tsv_escaped(name) + seq!['\t'] + r;
    assert(line =~= tag + seq!['\t'] + t1);
    lemma_fields_step(tag, t1, 5);
    lemma_fields_step(tsv_escaped(name), r, 4);
    lemma_fields_last(r, 3);
    assert(fields(line, 5) =~= seq![tag, tsv_escaped(name), r]);
    assert(tag.len() != "CHANNEL"@.len());
}

/// A line as it is written: no line end in it, nor a carriage return at its
/// end.
spec fn clean_line(s: Seq<char>) -> bool {
    &&& forall|i: int| 0 <= i < s.len() ==> #[trigger] s[i] != '\n'
    &&& s.len() > 0
    &&& s.last() != '\r'
}

proof fn lemma_first_line(line: Seq<char>, rest: Seq<char>)
    requires
        clean_line(line),
    ensures
        text_lines(line + seq!['\n'] + rest) == seq![line] + text_lines(rest),
{
    let s = line + seq!['\n'] + rest;
    lemma_find_is(s, '\n', line.len() as int);
    assert(s.take(line.len() as int) =~= line);
    assert(s.skip(line.len() as int + 1) =~= rest);
    assert(without_cr(line) == line);
}

proof fn lemma_adding_a_line(m: StateModel, line: Seq<char>, rest: Seq<char>)
    requires
        clean_line(line),
    ensures
        with_lines(m, text_lines(line + seq!['\n'] + rest)) == with_lines(
            with_line(m, line),
            text_lines(rest),
        ),
{
    lemma_first_line(line, rest);
    let all = seq![line] + text_lines(rest);
    assert(all[0] == line);
    assert(all.skip(1) =~= text_lines(rest));
}

/// Written by joining pieces, none of which holds a line end, the last one
/// being a number.
proof fn lemma_clean(front: Seq<char>, n: u64)
    requires
        no_newline(front),
    ensures
        clean_line(front + decimal(n as nat)),
{
    lemma_decimal_field(n);
    let s = front + decimal(n as nat);
    let d = decimal(n as nat);
    assert forall|i: int| 0 <= i < s.len() implies #[trigger] s[i] != '\n' by {
        if i < front.len() {
            assert(s[i] == front[i]);
        } else {
            assert(s[i] == d[i - front.len()]);
        }
    }
    assert(s.last() == d[d.len() - 1]);
}

proof fn lemma_message_line_clean(name: Seq<char>, m: ManagedMsg)
    ensures
        clean_line(message_line(name, m)),
{
    reveal_strlit("MESSAGE\t");
    reveal_strlit("\tmsg_id:");
    reveal_strlit("\tch_id:");
    reveal_strlit("\thash:");
    lemma_name_no_newline(name);
    lemma_decimal_no_newline(m.message_id as nat);
    lemma_decimal_no_newline(m.channel_id as nat);
    let a = "MESSAGE\t"@ + tsv_escaped(name);
    lemma_no_newline_join("MESSAGE\t"@, tsv_escaped(name));
    let b = a + "\tmsg_id:"@;
    lemma_no_newline_join(a, "\tmsg_id:"@);
    let c = b + decimal(m.message_id as nat);
    lemma_no_newline_join(b, decimal(m.message_id as nat));
    let d = c + "\tch_id:"@;
    lemma_no_newline_join(c, "\tch_id:"@);
    let e = d + decimal(m.channel_id as nat);
    lemma_no_newline_join(d, decimal(m.channel_id as nat));
    let f = e + "\thash:"@;
    lemma_no_newline_join(e, "\thash:"@);
    lemma_clean(f, m.content_hash);
}

proof fn lemma_channel_line_clean(name: Seq<char>, id: u64)
    ensures
        clean_line(channel_line(name, id)),
{
    reveal_strlit("CHANNEL\t");
    reveal_strlit("\tch_id:");
    lemma_name_no_newline(name);
    let a = "CHANNEL\t"@ + tsv_escaped(name);
    lemma_no_newline_join("CHANNEL\t"@, tsv_escaped(name));
    let b = a + "\tch_id:"@;
    lemma_no_newline_join(a, "\tch_id:"@);
    lemma_clean(b, id);
}

proof fn lemma_role_line_clean(name: Seq<char>, id: u64)
    ensures
        clean_line(role_line(name, id)),
{
    reveal_strlit("ROLE\t");
    reveal_strlit("\trole_id:");
    lemma_name_no_newline(name);
    let a = "ROLE\t"@ + tsv_escaped(name);
    lemma_no_newline_join("ROLE\t"@, tsv_escaped(name));
    let b = a + "\trole_id:"@;
    lemma_no_newline_join(a, "\trole_id:"@);
    lemma_clean(b, id);
}

proof fn lemma_messages_loaded(
    m: StateModel,
    entries: Seq<(Seq<char>, ManagedMsg)>,
    rest: Seq<char>,
)
    requires
        m.managed == Map::<Seq<char>, ManagedMsg>::empty(),
    ensures
        with_lines(m, text_lines(message_lines(entries) + rest)) == with_lines(
            StateModel { managed: map_of(entries), ..m },
            text_lines(rest),
        ),
    decreases entries.len(),
{
    if entries.len() == 0 {
        assert(message_lines(entries) + rest =~= rest);
    } else {
        let init = entries.drop_last();
        let last = entries.last();
        let line = message_line(last.0, last.1);
        reveal_strlit("\n");
        assert("\n"@ =~= seq!['\n']);
        assert(message_lines(entries) + rest =~= message_lines(init) + (line + seq!['\n'] + rest));
        lemma_messages_loaded(m, init, line + seq!['\n'] + rest);
        lemma_message_line_clean(last.0, last.1);
        let before = StateModel { managed: map_of(init), ..m };
        lemma_adding_a_line(before, line, rest);
        lemma_message_line(before, last.0, last.1);
    }
}

proof fn lemma_channels_loaded(m: StateModel, entries: Seq<(Seq<char>, u64)>, rest: Seq<char>)
    requires
        m.channels == Map::<Seq<char>, u64>::empty(),
    ensures
        with_lines(m, text_lines(channel_lines(entries) + rest)) == with_lines(
            StateModel { channels: map_of(entries), ..m },
            text_lines(rest),
        ),
    decreases entries.len(),
{
    if entries.len() == 0 {
        assert(channel_lines(entries) + rest =~= rest);
    } else {
        let init = entries.drop_last();
        let last = entries.last();
        let line = channel_line(last.0, last.1);
        reveal_strlit("\n");
        assert("\n"@ =~= seq!['\n']);
        assert(channel_lines(entries) + rest =~= channel_lines(init) + (line + seq!['\n'] + rest));
        lemma_channels_loaded(m, init, line + seq!['\n'] + rest);
        lemma_channel_line_clean(last.0, last.1);
        let before = StateModel { channels: map_of(init), ..m };
        lemma_adding_a_line(before, line, rest);
        lemma_channel_line(before, last.0, last.1);
    }
}

proof fn lemma_roles_loaded(m: StateModel, entries: Seq<(Seq<char>, u64)>, rest: Seq<char>)
    requires
        m.roles == Map::<Seq<char>, u64>::empty(),
    ensures
        with_lines(m, text_lines(role_lines(entries) + rest)) == with_lines(
            StateModel { roles: map_of(entries), ..m },
            text_lines(rest),
        ),
    decreases entries.len(),
{
    if entries.len() == 0 {
        assert(role_lines(entries) + rest =~= rest);
    } else {
        let init = entries.drop_last();
        let last = entries.last();
        let line = role_line(last.0, last.1);
        reveal_strlit("\n");
        assert("\n"@ =~= seq!['\n']);
        assert(role_lines(entries) + rest =~= role_lines(init) + (line + seq!['\n'] + rest));
        lemma_roles_loaded(m, init, line + seq!['\n'] + rest);
        lemma_role_line_clean(last.0, last.1);
        let before = StateModel { roles: map_of(init), ..m };
        lemma_adding_a_line(before, line, rest);
        lemma_role_line(before, last.0, last.1);
    }
}

/// What was saved is what is loaded, whatever the names hold.
pub proof fn law_saved_state_is_loaded(state: State)
    ensures
        loaded(
            state_text(state.managed.listed(), state.channels.listed(), state.roles.listed()),
        ) == state@,
{
    let messages = state.managed.listed();
    let channels = state.channels.listed();
    let roles = state.roles.listed();
    let text = state_text(messages, channels, roles);
    let header = "# version: 1"@;
    reveal_strlit("# version: 1");
    reveal_strlit("# version: 1\n");
    assert("# version: 1\n"@ =~= header + seq!['\n']);
    let r3 = role_lines(roles) + Seq::<char>::empty();
    let r2 = channel_lines(channels) + r3;
    let r1 = message_lines(messages) + r2;
    assert(text =~= header + seq!['\n'] + r1);
    lemma_adding_a_line(nothing(), header, r1);
    lemma_fields_last(header, 5);
    assert(with_line(nothing(), header) == nothing());
    lemma_messages_loaded(nothing(), messages, r2);
    let m1 = StateModel { managed: map_of(messages), ..nothing() };
    lemma_channels_loaded(m1, channels, r3);
    let m2 = StateModel { channels: map_of(channels), ..m1 };
    lemma_roles_loaded(m2, roles, Seq::empty());
    assert(text_lines(Seq::<char>::empty()) =~= Seq::<Seq<char>>::empty());
}

/// The state file depends on what is remembered alone, not on the order in
/// which it was learned.
pub proof fn law_saved_text_is_determined(a: State, b: State)
    requires
        a.wf(),
        b.wf(),
        a@ == b@,
    ensures
        state_text(a.managed.listed(), a.channels.listed(), a.roles.listed()) == state_text(
            b.managed.listed(),
            b.channels.listed(),
            b.roles.listed(),
        ),
{
    law_listing_is_determined(a.managed.listed(), b.managed.listed());
    law_listing_is_determined(a.channels.listed(), b.channels.listed());
    law_listing_is_determined(a.roles.listed(), b.roles.listed());
}

} // verus!
