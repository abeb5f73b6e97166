//! The event log: tab-separated, one event per line.
use vstd::prelude::*;

use crate::bot::state::fields;
use crate::bot::state_laws::{
    lemma_decimal_field, lemma_fields_last, lemma_fields_step, one_field,
};
use crate::bot::tsv::{
    escape_tsv, law_tsv_field_is_closed, law_tsv_round_trip, lemma_decimal_no_newline,
    lemma_name_no_newline, lemma_no_newline_join, no_newline, tsv_escaped,
};
use crate::bot::types::{LogEntry, LogModel};
use crate::text::{decimal, decimal_string, with_number};

verus! {

/// The log line for an entry, without its time.
pub open spec fn log_text(entry: LogModel) -> Seq<char> {
    match entry {
        LogModel::Reaction { channel_id, message_id, user_id, emoji, added } => (if added {
            "REACTION_ADD\t"@
        } else {
            "REACTION_REMOVE\t"@
        }) + decimal(channel_id as nat) + "\t"@ + decimal(message_id as nat) + "\t"@ + decimal(
            user_id as nat,
        ) + "\t"@ + tsv_escaped(emoji),
        LogModel::MessageCreate { channel_id, message_id, author_id, author_name, content } =>
            "MESSAGE\t"@ + decimal(channel_id as nat) + "\t"@ + decimal(message_id as nat) + "\t"@
                + decimal(author_id as nat) + "\t"@ + tsv_escaped(author_name) + "\t"@
                + tsv_escaped(content),
        LogModel::MessageEdit { channel_id, message_id, content } => "EDIT\t"@ + decimal(
            channel_id as nat,
        ) + "\t"@ + decimal(message_id as nat) + "\t"@ + tsv_escaped(content),
        LogModel::MessageDelete { channel_id, message_id } => "DELETE\t"@ + decimal(
            channel_id as nat,
        ) + "\t"@ + decimal(message_id as nat),
    }
}

/// The log line for an entry, without its time.
pub fn format_entry(entry: &LogEntry) -> (r: String)
    ensures
        r@ == log_text(entry@),
{
    match entry {
        LogEntry::Reaction { channel_id, message_id, user_id, emoji, added } => {
            let tag = if *added {
                "REACTION_ADD\t"
            } else {
                "REACTION_REMOVE\t"
            };
            let mut r = with_number(tag, *channel_id);
            r.append("\t");
            r.append(decimal_string(*message_id).as_str());
            r.append("\t");
            r.append(decimal_string(*user_id).as_str());
            r.append("\t");
            r.append(escape_tsv(emoji.as_str()).as_str());
            r
        },
        LogEntry::MessageCreate { channel_id, message_id, author_id, author_name, content } => {
            let mut r = with_number("MESSAGE\t", *channel_id);
            r.append("\t");
            r.append(decimal_string(*message_id).as_str());
            r.append("\t");
            r.append(decimal_string(*author_id).as_str());
            r.append("\t");
            r.append(escape_tsv(author_name.as_str()).as_str());
            r.append("\t");
            r.append(escape_tsv(content.as_str()).as_str());
            r
        },
        LogEntry::MessageEdit { channel_id, message_id, content } => {
            let mut r = with_number("EDIT\t", *channel_id);
            r.append("\t");
            r.append(decimal_string(*message_id).as_str());
            r.append("\t");
            r.append(escape_tsv(content.as_str()).as_str());
            r
        },
        LogEntry::MessageDelete { channel_id, message_id } => {
            let mut r = with_number("DELETE\t", *channel_id);
            r.append("\t");
            r.append(decimal_string(*message_id).as_str());
            r
        },
    }
}

/// A whole line of the log: the time in seconds since the epoch, and the
/// entry.
pub fn log_line(time: u64, entry: &str) -> (r: String)
    ensures
        r@ == decimal(time as nat) + "\t"@ + entry@ + "\n"@,
{
    let mut r = decimal_string(time);
    r.append("\t");
    r.append(entry);
    r.append("\n");
    r
}

/// One event takes one line of the log, whatever its texts hold.
pub proof fn law_one_line_per_entry(entry: LogModel)
    ensures
        no_newline(log_text(entry)),
{
    reveal_strlit("REACTION_ADD\t");
    reveal_strlit("REACTION_REMOVE\t");
    reveal_strlit("MESSAGE\t");
    reveal_strlit("EDIT\t");
    reveal_strlit("DELETE\t");
    reveal_strlit("\t");
    let tab = "\t"@;
    match entry {
        LogModel::Reaction { channel_id, message_id, user_id, emoji, added } => {
            let tag = if added {
                "REACTION_ADD\t"@
            } else {
                "REACTION_REMOVE\t"@
            };
            lemma_three_ids(tag, channel_id, message_id, user_id);
            lemma_name_no_newline(emoji);
            let a = tag + decimal(channel_id as nat) + tab + decimal(message_id as nat) + tab
                + decimal(user_id as nat);
            lemma_no_newline_join(a, tab);
            lemma_no_newline_join(a + tab, tsv_escaped(emoji));
        },
        LogModel::MessageCreate { channel_id, message_id, author_id, author_name, content } => {
            let tag = "MESSAGE\t"@;
            lemma_three_ids(tag, channel_id, message_id, author_id);
            lemma_name_no_newline(author_name);
            lemma_name_no_newline(content);
            let a = tag + decimal(channel_id as nat) + tab + decimal(message_id as nat) + tab
                + decimal(author_id as nat);
            lemma_no_newline_join(a, tab);
            let b = a + tab;
            lemma_no_newline_join(b, tsv_escaped(author_name));
            let c = b + tsv_escaped(author_name);
            lemma_no_newline_join(c, tab);
            lemma_no_newline_join(c + tab, tsv_escaped(content));
        },
        LogModel::MessageEdit { channel_id, message_id, content } => {
            let tag = "EDIT\t"@;
            lemma_two_ids(tag, channel_id, message_id);
            lemma_name_no_newline(content);
            let a = tag + decimal(channel_id as nat) + tab + decimal(message_id as nat);
            lemma_no_newline_join(a, tab);
            lemma_no_newline_join(a + tab, tsv_escaped(content));
        },
        LogModel::MessageDelete { channel_id, message_id } => {
            lemma_two_ids("DELETE\t"@, channel_id, message_id);
        },
    }
}

proof fn lemma_two_ids(tag: Seq<char>, a: u64, b: u64)
    requires
        no_newline(tag),
    ensures
        no_newline(tag + decimal(a as nat) + "\t"@ + decimal(b as nat)),
{
    reveal_strlit("\t");
    lemma_decimal_no_newline(a as nat);
    lemma_decimal_no_newline(b as nat);
    let x = tag + decimal(a as nat);
    lemma_no_newline_join(tag, decimal(a as nat));
    lemma_no_newline_join(x, "\t"@);
    lemma_no_newline_join(x + "\t"@, decimal(b as nat));
}

proof fn lemma_three_ids(tag: Seq<char>, a: u64, b: u64, c: u64)
    requires
        no_newline(tag),
    ensures
        no_newline(
            tag + decimal(a as nat) + "\t"@ + decimal(b as nat) + "\t"@ + decimal(c as nat),
        ),
{
    reveal_strlit("\t");
    lemma_decimal_no_newline(a as nat);
    lemma_no_newline_join(tag, decimal(a as nat));
    lemma_no_newline_join(tag + decimal(a as nat), "\t"@);
    lemma_two_ids(tag + decimal(a as nat) + "\t"@, b, c);
}

/// The fields of an entry's line: what happened, IDs, and texts.
pub open spec fn log_fields(entry: LogModel) -> Seq<Seq<char>> {
    match entry {
        LogModel::Reaction { channel_id, message_id, user_id, emoji, added } => seq![
            if added {
                "REACTION_ADD"@
            } else {
                "REACTION_REMOVE"@
            },
            decimal(channel_id as nat),
            decimal(message_id as nat),
            decimal(user_id as nat),
            tsv_escaped(emoji),
        ],
        LogModel::MessageCreate { channel_id, message_id, author_id, author_name, content } => seq![
            "MESSAGE"@,
            decimal(channel_id as nat),
            decimal(message_id as nat),
            decimal(author_id as nat),
            tsv_escaped(author_name),
            tsv_escaped(content),
        ],
        LogModel::MessageEdit { channel_id, message_id, content } => seq![
            "EDIT"@,
            decimal(channel_id as nat),
            decimal(message_id as nat),
            tsv_escaped(content),
        ],
        LogModel::MessageDelete { channel_id, message_id } => seq![
            "DELETE"@,
            decimal(channel_id as nat),
            decimal(message_id as nat),
        ],
    }
}

/// Fields with tabs between them.
pub open spec fn tab_joined(all: Seq<Seq<char>>) -> Seq<char>
    decreases all.len(),
{
    if all.len() == 0 {
        Seq::empty()
    } else if all.len() == 1 {
        all[0]
    } else {
        all[0] + seq!['\t'] + tab_joined(all.skip(1))
    }
}

proof fn lemma_joined_fields(all: Seq<Seq<char>>, n: nat)
    requires
        all.len() > 0,
        n >= all.len(),
        forall|i: int| 0 <= i < all.len() ==> one_field(#[trigger] all[i]),
    ensures
        fields(tab_joined(all), n) == all,
    decreases all.len(),
{
    if all.len() == 1 {
        lemma_fields_last(all[0], n);
        assert(seq![all[0]] =~= all);
    } else {
        let more = all.skip(1);
        assert forall|i: int| 0 <= i < more.len() implies one_field(#[trigger] more[i]) by {
            assert(more[i] == all[i + 1]);
        }
        lemma_joined_fields(more, (n - 1) as nat);
        lemma_fields_step(all[0], tab_joined(more), n);
        assert(seq![all[0]] + more =~= all);
    }
}

proof fn lemma_log_fields_closed(entry: LogModel)
    ensures
        forall|i: int|
            0 <= i < log_fields(entry).len() ==> one_field(#[trigger] log_fields(entry)[i]),
{
    reveal_strlit("REACTION_ADD");
    reveal_strlit("REACTION_REMOVE");
    reveal_strlit("MESSAGE");
    reveal_strlit("EDIT");
    reveal_strlit("DELETE");
    match entry {
        LogModel::Reaction { channel_id, message_id, user_id, emoji, added } => {
            lemma_decimal_field(channel_id);
            lemma_decimal_field(message_id);
            lemma_decimal_field(user_id);
            law_tsv_field_is_closed(emoji);
        },
        LogModel::MessageCreate { channel_id, message_id, author_id, author_name, content } => {
            lemma_decimal_field(channel_id);
            lemma_decimal_field(message_id);
            lemma_decimal_field(author_id);
            law_tsv_field_is_closed(author_name);
            law_tsv_field_is_closed(content);
        },
        LogModel::MessageEdit { channel_id, message_id, content } => {
            lemma_decimal_field(channel_id);
            lemma_decimal_field(message_id);
            law_tsv_field_is_closed(content);
        },
        LogModel::MessageDelete { channel_id, message_id } => {
            lemma_decimal_field(channel_id);
            lemma_decimal_field(message_id);
        },
    }
}

proof fn lemma_joined_push(all: Seq<Seq<char>>, field: Seq<char>)
    requires
        all.len() > 0,
    ensures
        tab_joined(all.push(field)) == tab_joined(all) + seq!['\t'] + field,
    decreases all.len(),
{
    let more = all.push(field);
    if all.len() == 1 {
        assert(more.skip(1) =~= seq![field]);
        assert(tab_joined(seq![field]) == field);
    } else {
        lemma_joined_push(all.skip(1), field);
        assert(more.skip(1) =~= all.skip(1).push(field));
        assert(tab_joined(more) =~= tab_joined(all) + seq!['\t'] + field);
    }
}

/// A tag and the fields behind it.
proof fn lemma_tagged(tag: Seq<char>, a: Seq<char>, b: Seq<char>)
    ensures
        tab_joined(seq![tag, a, b]) == tag + seq!['\t'] + a + seq!['\t'] + b,
{
    lemma_joined_push(seq![tag], a);
    assert(seq![tag].push(a) =~= seq![tag, a]);
    lemma_joined_push(seq![tag, a], b);
    assert(seq![tag, a].push(b) =~= seq![tag, a, b]);
}

proof fn lemma_log_text_is_joined(entry: LogModel)
    ensures
        log_text(entry) == tab_joined(log_fields(entry)),
{
    reveal_strlit("\t");
    assert("\t"@ =~= seq!['\t']);
    match entry {
        LogModel::Reaction { channel_id, message_id, user_id, emoji, added } => {
            reveal_strlit("REACTION_ADD");
            reveal_strlit("REACTION_ADD\t");
            reveal_strlit("REACTION_REMOVE");
            reveal_strlit("REACTION_REMOVE\t");
            assert("REACTION_ADD\t"@ =~= "REACTION_ADD"@ + seq!['\t']);
            assert("REACTION_REMOVE\t"@ =~= "REACTION_REMOVE"@ + seq!['\t']);
            let all = log_fields(entry);
            lemma_tagged(all[0], all[1], all[2]);
            let three = seq![all[0], all[1], all[2]];
            lemma_joined_push(three, all[3]);
            lemma_joined_push(three.push(all[3]), all[4]);
            assert(three.push(all[3]).push(all[4]) =~= all);
        },
        LogModel::MessageCreate { channel_id, message_id, author_id, author_name, content } => {
            reveal_strlit("MESSAGE");
            reveal_strlit("MESSAGE\t");
            assert("MESSAGE\t"@ =~= "MESSAGE"@ + seq!['\t']);
            let all = log_fields(entry);
            lemma_tagged(all[0], all[1], all[2]);
            let three = seq![all[0], all[1], all[2]];
            lemma_joined_push(three, all[3]);
            lemma_joined_push(three.push(all[3]), all[4]);
            lemma_joined_push(three.push(all[3]).push(all[4]), all[5]);
            assert(three.push(all[3]).push(all[4]).push(all[5]) =~= all);
        },
        LogModel::MessageEdit { channel_id, message_id, content } => {
            reveal_strlit("EDIT");
            reveal_strlit("EDIT\t");
            assert("EDIT\t"@ =~= "EDIT"@ + seq!['\t']);
            let all = log_fields(entry);
            lemma_tagged(all[0], all[1], all[2]);
            let three = seq![all[0], all[1], all[2]];
            lemma_joined_push(three, all[3]);
            assert(three.push(all[3]) =~= all);
        },
        LogModel::MessageDelete { channel_id, message_id } => {
            reveal_strlit("DELETE");
            reveal_strlit("DELETE\t");
            assert("DELETE\t"@ =~= "DELETE"@ + seq!['\t']);
            let all = log_fields(entry);
            lemma_tagged(all[0], all[1], all[2]);
            assert(seq![all[0], all[1], all[2]] =~= all);
        },
    }
}

/// A line of the log, without its end, splits at tabs into the time and the
/// fields of the entry; no field holds a tab or breaks the line.
pub proof fn law_log_line_splits_back(time: u64, entry: LogModel, n: nat)
    requires
        n > log_fields(entry).len(),
    ensures
        fields(decimal(time as nat) + "\t"@ + log_text(entry), n) == seq![decimal(time as nat)]
            + log_fields(entry),
        forall|i: int|
            0 <= i < log_fields(entry).len() ==> one_field(#[trigger] log_fields(entry)[i]),
{
    lemma_log_fields_closed(entry);
    lemma_log_text_is_joined(entry);
    lemma_line_splits(time, log_fields(entry), log_text(entry), n);
}

proof fn lemma_line_splits(time: u64, all: Seq<Seq<char>>, text: Seq<char>, n: nat)
    requires
        all.len() > 0,
        n > all.len(),
        text == tab_joined(all),
        forall|i: int| 0 <= i < all.len() ==> one_field(#[trigger] all[i]),
    ensures
        fields(decimal(time as nat) + "\t"@ + text, n) == seq![decimal(time as nat)] + all,
{
    reveal_strlit("\t");
    assert("\t"@ =~= seq!['\t']);
    lemma_decimal_field(time);
    lemma_fields_step(decimal(time as nat), text, n);
    lemma_joined_fields(all, (n - 1) as nat);
}

/// Nothing is lost in the log: entries with the same line are the same.
pub proof fn law_log_line_tells_the_entry(a: LogModel, b: LogModel)
    requires
        log_text(a) == log_text(b),
    ensures
        a == b,
{
    lemma_log_fields_closed(a);
    lemma_log_fields_closed(b);
    lemma_log_text_is_joined(a);
    lemma_log_text_is_joined(b);
    lemma_joined_fields(log_fields(a), 6);
    lemma_joined_fields(log_fields(b), 6);
    lemma_fields_tell_the_entry(a, b);
}

proof fn lemma_same_decimal(a: u64, b: u64)
    requires
        decimal(a as nat) == decimal(b as nat),
    ensures
        a == b,
{
    lemma_decimal_field(a);
    lemma_decimal_field(b);
}

proof fn lemma_same_text(a: Seq<char>, b: Seq<char>)
    requires
        tsv_escaped(a) == tsv_escaped(b),
    ensures
        a == b,
{
    law_tsv_round_trip(a);
    law_tsv_round_trip(b);
}

proof fn lemma_fields_tell_the_entry(a: LogModel, b: LogModel)
    requires
        log_fields(a) == log_fields(b),
    ensures
        a == b,
{
    reveal_strlit("REACTION_ADD");
    reveal_strlit("REACTION_REMOVE");
    reveal_strlit("MESSAGE");
    reveal_strlit("EDIT");
    reveal_strlit("DELETE");
    let x = log_fields(a);
    let y = log_fields(b);
    assert(x[0] == y[0] && x[1] == y[1] && x[2] == y[2]);
    assert("REACTION_ADD"@.len() == 12 && "REACTION_REMOVE"@.len() == 15);
    assert("MESSAGE"@.len() == 7 && "EDIT"@.len() == 4 && "DELETE"@.len() == 6);
    match (a, b) {
        (
            LogModel::Reaction { channel_id, message_id, user_id, emoji, added },
            LogModel::Reaction { channel_id: c, message_id: m, user_id: u, emoji: e, added: d },
        ) => {
            lemma_same_decimal(channel_id, c);
            lemma_same_decimal(message_id, m);
            assert(x[3] == y[3] && x[4] == y[4]);
            lemma_same_decimal(user_id, u);
            lemma_same_text(emoji, e);
        },
        (
            LogModel::MessageCreate { channel_id, message_id, author_id, author_name, content },
            LogModel::MessageCreate {
                channel_id: c,
                message_id: m,
                author_id: u,
                author_name: e,
                content: t,
            },
        ) => {
            lemma_same_decimal(channel_id, c);
            lemma_same_decimal(message_id, m);
            assert(x[3] == y[3] && x[4] == y[4] && x[5] == y[5]);
            lemma_same_decimal(author_id, u);
            lemma_same_text(author_name, e);
            lemma_same_text(content, t);
        },
        (
            LogModel::MessageEdit { channel_id, message_id, content },
            LogModel::MessageEdit { channel_id: c, message_id: m, content: t },
        ) => {
            lemma_same_decimal(channel_id, c);
            lemma_same_decimal(message_id, m);
            assert(x[3] == y[3]);
            lemma_same_text(content, t);
        },
        (
            LogModel::MessageDelete { channel_id, message_id },
            LogModel::MessageDelete { channel_id: c, message_id: m },
        ) => {
            lemma_same_decimal(channel_id, c);
            lemma_same_decimal(message_id, m);
        },
        _ => {},
    }
}

} // verus!
