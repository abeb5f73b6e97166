//! What the bot remembers from run to run, as a tab-separated file.
use vstd::prelude::*;
use vstd::slice::slice_subrange;
use vstd::utf8::encode_utf8;

use crate::bot::names::NameMap;
use crate::bot::tsv::{escape_tsv, tsv_escaped, tsv_unescaped, unescape_tsv};
use crate::bytes::{find, has_prefix, le_value, lemma_find, read_le};
use crate::digest::{sha256, sha256_digest, MAX_HASHED};
use crate::text::{
    chars_of, decimal, decimal_string, find_char, number_in, parse_number, range_eq, str_eq,
    string_of_range, texts,
};

verus! {

/// A message that the bot posted and keeps up to date.
#[derive(Debug, Clone, Copy, PartialEq, Eq, Structural)]
pub struct ManagedMsg {
    pub message_id: u64,
    pub channel_id: u64,
    pub content_hash: u64,
}

/// What the bot remembers: its managed messages, and what the stable names of
/// channels and roles stand for.
pub struct State {
    pub managed: NameMap<ManagedMsg>,
    pub channels: NameMap<u64>,
    pub roles: NameMap<u64>,
}

/// The same as maps.
pub struct StateModel {
    pub managed: Map<Seq<char>, ManagedMsg>,
    pub channels: Map<Seq<char>, u64>,
    pub roles: Map<Seq<char>, u64>,
}

impl View for State {
    type V = StateModel;

    open spec fn view(&self) -> StateModel {
        StateModel { managed: self.managed@, channels: self.channels@, roles: self.roles@ }
    }
}

impl State {
    pub open spec fn wf(&self) -> bool {
        self.managed.wf() && self.channels.wf() && self.roles.wf()
    }

    /// Nothing remembered.
    pub fn new() -> (r: Self)
        ensures
            r.wf(),
            r@ == nothing(),
    {
        State { managed: NameMap::new(), channels: NameMap::new(), roles: NameMap::new() }
    }
}

/// Nothing remembered.
pub open spec fn nothing() -> StateModel {
    StateModel { managed: Map::empty(), channels: Map::empty(), roles: Map::empty() }
}

/// Text that can be hashed.
pub open spec fn hashable(s: Seq<char>) -> bool {
    encode_utf8(s).len() <= MAX_HASHED
}

/// The first eight bytes of the SHA-256 digest as a number, lowest byte first.
pub open spec fn hash_of(s: Seq<char>) -> nat {
    le_value(sha256_digest(encode_utf8(s)).take(8))
}

/// A hash of some text, to notice when it changes.
pub fn content_hash(s: &str) -> (r: u64)
    requires
        hashable(s@),
    ensures
        r == hash_of(s@),
{
    let digest = sha256(s.as_bytes());
    let head = slice_subrange(digest.as_slice(), 0, 8);
    assert(head@ =~= digest@.take(8));
    read_le(head)
}

/// The line for a managed message.
pub open spec fn message_line(name: Seq<char>, m: ManagedMsg) -> Seq<char> {
    "MESSAGE\t"@ + tsv_escaped(name) + "\tmsg_id:"@ + decimal(m.message_id as nat) + "\tch_id:"@
        + decimal(m.channel_id as nat) + "\thash:"@ + decimal(m.content_hash as nat)
}

/// The line for a channel.
pub open spec fn channel_line(name: Seq<char>, id: u64) -> Seq<char> {
    "CHANNEL\t"@ + tsv_escaped(name) + "\tch_id:"@ + decimal(id as nat)
}

/// The line for a role.
pub open spec fn role_line(name: Seq<char>, id: u64) -> Seq<char> {
    "ROLE\t"@ + tsv_escaped(name) + "\trole_id:"@ + decimal(id as nat)
}

/// The lines for managed messages, in order.
pub open spec fn message_lines(entries: Seq<(Seq<char>, ManagedMsg)>) -> Seq<char>
    decreases entries.len(),
{
    if entries.len() == 0 {
        Seq::empty()
    } else {
        message_lines(entries.drop_last()) + message_line(entries.last().0, entries.last().1)
            + "\n"@
    }
}

/// The lines for channels, in order.
pub open spec fn channel_lines(entries: Seq<(Seq<char>, u64)>) -> Seq<char>
    decreases entries.len(),
{
    if entries.len() == 0 {
        Seq::empty()
    } else {
        channel_lines(entries.drop_last()) + channel_line(entries.last().0, entries.last().1)
            + "\n"@
    }
}

/// The lines for roles, in order.
pub open spec fn role_lines(entries: Seq<(Seq<char>, u64)>) -> Seq<char>
    decreases entries.len(),
{
    if entries.len() == 0 {
        Seq::empty()
    } else {
        role_lines(entries.drop_last()) + role_line(entries.last().0, entries.last().1) + "\n"@
    }
}

/// The state file: a header, then messages, channels and roles, each sorted by
/// name.
pub open spec fn state_text(
    managed: Seq<(Seq<char>, ManagedMsg)>,
    channels: Seq<(Seq<char>, u64)>,
    roles: Seq<(Seq<char>, u64)>,
) -> Seq<char> {
    "# version: 1\n"@ + message_lines(managed) + channel_lines(channels) + role_lines(roles)
}

fn push_message(out: &mut String, name: &str, m: &ManagedMsg)
    ensures
        final(out)@ == old(out)@ + message_line(name@, *m) + "\n"@,
{
    out.append("MESSAGE\t");
    out.append(escape_tsv(name).as_str());
    out.append("\tmsg_id:");
    out.append(decimal_string(m.message_id).as_str());
    out.append("\tch_id:");
    out.append(decimal_string(m.channel_id).as_str());
    out.append("\thash:");
    out.append(decimal_string(m.content_hash).as_str());
    assert(out@ =~= old(out)@ + message_line(name@, *m));
    out.append("\n");
}

fn push_channel(out: &mut String, name: &str, id: u64)
    ensures
        final(out)@ == old(out)@ + channel_line(name@, id) + "\n"@,
{
    out.append("CHANNEL\t");
    out.append(escape_tsv(name).as_str());
    out.append("\tch_id:");
    out.append(decimal_string(id).as_str());
    assert(out@ =~= old(out)@ + channel_line(name@, id));
    out.append("\n");
}

fn push_role(out: &mut String, name: &str, id: u64)
    ensures
        final(out)@ == old(out)@ + role_line(name@, id) + "\n"@,
{
    out.append("ROLE\t");
    out.append(escape_tsv(name).as_str());
    out.append("\trole_id:");
    out.append(decimal_string(id).as_str());
    assert(out@ =~= old(out)@ + role_line(name@, id));
    out.append("\n");
}

/// The contents of the state file.
pub fn save(state: &State) -> (r: String)
    ensures
        r@ == state_text(state.managed.listed(), state.channels.listed(), state.roles.listed()),
{
    let mut out = "# version: 1\n".to_string();
    let ghost head = out@;
    let ghost messages = state.managed.listed();
    let mut i: usize = 0;
    assert(messages.take(0) =~= Seq::<(Seq<char>, ManagedMsg)>::empty());
    assert(out@ =~= head + message_lines(messages.take(0)));
    while i < state.managed.len()
        invariant
            messages == state.managed.listed(),
            i <= messages.len(),
            out@ == head + message_lines(messages.take(i as int)),
        decreases messages.len() - i,
    {
        push_message(&mut out, state.managed.name_at(i), state.managed.value_at(i));
        i = i + 1;
        proof {
            let done = messages.take(i as int);
            assert(done.drop_last() =~= messages.take(i - 1));
            assert(out@ =~= head + message_lines(done));
        }
    }
    assert(messages.take(i as int) =~= messages);
    let ghost head = out@;
    let ghost channels = state.channels.listed();
    let mut i: usize = 0;
    assert(channels.take(0) =~= Seq::<(Seq<char>, u64)>::empty());
    assert(out@ =~= head + channel_lines(channels.take(0)));
    while i < state.channels.len()
        invariant
            channels == state.channels.listed(),
            i <= channels.len(),
            out@ == head + channel_lines(channels.take(i as int)),
        decreases channels.len() - i,
    {
        push_channel(&mut out, state.channels.name_at(i), *state.channels.value_at(i));
        i = i + 1;
        proof {
            let done = channels.take(i as int);
            assert(done.drop_last() =~= channels.take(i - 1));
            assert(out@ =~= head + channel_lines(done));
        }
    }
    assert(channels.take(i as int) =~= channels);
    let ghost head = out@;
    let ghost roles = state.roles.listed();
    let mut i: usize = 0;
    assert(roles.take(0) =~= Seq::<(Seq<char>, u64)>::empty());
    assert(out@ =~= head + role_lines(roles.take(0)));
    while i < state.roles.len()
        invariant
            roles == state.roles.listed(),
            i <= roles.len(),
            out@ == head + role_lines(roles.take(i as int)),
        decreases roles.len() - i,
    {
        push_role(&mut out, state.roles.name_at(i), *state.roles.value_at(i));
        i = i + 1;
        proof {
            let done = roles.take(i as int);
            assert(done.drop_last() =~= roles.take(i - 1));
            assert(out@ =~= head + role_lines(done));
        }
    }
    assert(roles.take(i as int) =~= roles);
    out
}

/// A line without a carriage return at its end.
pub open spec fn without_cr(line: Seq<char>) -> Seq<char> {
    if line.len() > 0 && line.last() == '\r' {
        line.drop_last()
    } else {
        line
    }
}

/// The lines of a text: each ends with a newline, perhaps after a carriage
/// return, and the last one need not.
pub open spec fn text_lines(s: Seq<char>) -> Seq<Seq<char>>
    decreases s.len(),
    via text_lines_decreases
{
    let nl = find(s, '\n');
    if s.len() == 0 {
        Seq::empty()
    } else if nl < s.len() {
        seq![without_cr(s.take(nl))] + text_lines(s.skip(nl + 1))
    } else {
        seq![s]
    }
}

#[via_fn]
proof fn text_lines_decreases(s: Seq<char>) {
    lemma_find(s, '\n');
}

/// A line split at tabs into `n` fields at most, the last one holding the
/// rest.
pub open spec fn fields(line: Seq<char>, n: nat) -> Seq<Seq<char>>
    decreases n,
{
    let tab = find(line, '\t');
    if n <= 1 || tab >= line.len() {
        seq![line]
    } else {
        seq![line.take(tab)] + fields(line.skip(tab + 1), (n - 1) as nat)
    }
}

/// The number behind a label.
pub open spec fn labelled(field: Seq<char>, label: Seq<char>) -> Option<u64> {
    if has_prefix(field, label) {
        match parse_number(field.skip(label.len() as int), u64::MAX as nat) {
            Some(n) => Some(n as u64),
            None => None,
        }
    } else {
        None
    }
}

/// What a line of the state file adds.  Lines that are not understood add
/// nothing.
pub open spec fn with_line(m: StateModel, line: Seq<char>) -> StateModel {
    let f = fields(line, 5);
    if f.len() == 5 && f[0] == "MESSAGE"@ {
        match (labelled(f[2], "msg_id:"@), labelled(f[3], "ch_id:"@), labelled(f[4], "hash:"@)) {
            (Some(message_id), Some(channel_id), Some(content_hash)) => StateModel {
                managed: m.managed.insert(
                    tsv_unescaped(f[1]),
                    ManagedMsg { message_id, channel_id, content_hash },
                ),
                ..m
            },
            _ => m,
        }
    } else if f.len() == 3 && f[0] == "CHANNEL"@ {
        match labelled(f[2], "ch_id:"@) {
            Some(id) => StateModel { channels: m.channels.insert(tsv_unescaped(f[1]), id), ..m },
            None => m,
        }
    } else if f.len() == 3 && f[0] == "ROLE"@ {
        match labelled(f[2], "role_id:"@) {
            Some(id) => StateModel { roles: m.roles.insert(tsv_unescaped(f[1]), id), ..m },
            None => m,
        }
    } else {
        m
    }
}

/// What lines of the state file add, in order.
pub open spec fn with_lines(m: StateModel, lines: Seq<Seq<char>>) -> StateModel
    decreases lines.len(),
{
    if lines.len() == 0 {
        m
    } else {
        with_lines(with_line(m, lines[0]), lines.skip(1))
    }
}

/// The state that a state file stands for.
pub open spec fn loaded(text: Seq<char>) -> StateModel {
    with_lines(nothing(), text_lines(text))
}

/// Split a line at tabs into `n` fields at most.
fn split_fields(line: &[char], n: usize) -> (r: Vec<String>)
    requires
        n >= 1,
    ensures
        texts(r@) == fields(line@, n as nat),
{
    let mut r: Vec<String> = Vec::new();
    let mut from: usize = 0;
    let mut left: usize = n;
    assert(line@.skip(0) =~= line@);
    assert(texts(r@) + fields(line@, n as nat) =~= fields(line@, n as nat));
    loop
        invariant
            1 <= left <= n,
            from <= line@.len(),
            texts(r@) + fields(line@.skip(from as int), left as nat) == fields(line@, n as nat),
        decreases left,
    {
        let ghost rest = line@.skip(from as int);
        let ghost done = texts(r@);
        let tab: usize = find_char(line, '\t', from);
        if left == 1 || tab >= line.len() {
            let last = string_of_range(line, from, line.len());
            assert(last@ =~= rest);
            r.push(last);
            assert(texts(r@) =~= done + seq![rest]);
            return r;
        }
        let field = string_of_range(line, from, tab);
        assert(field@ =~= rest.take(tab - from));
        r.push(field);
        from = tab + 1;
        left = left - 1;
        proof {
            assert(texts(r@) =~= done.push(field@));
            assert(rest.skip(find(rest, '\t') + 1) =~= line@.skip(from as int));
            assert(texts(r@) + fields(line@.skip(from as int), left as nat) =~= done + fields(
                rest,
                (left + 1) as nat,
            ));
        }
    }
}

/// The number behind a label.
fn labelled_number(field: &str, label: &str) -> (r: Option<u64>)
    ensures
        r == labelled(field@, label@),
{
    let f = chars_of(field);
    let l = chars_of(label);
    if f.len() < l.len() || !range_eq(f.as_slice(), 0, l.len(), l.as_slice()) {
        assert(f@.len() >= l@.len() ==> f@.subrange(0, l@.len() as int) =~= f@.take(l@.len() as int));
        return None;
    }
    assert(f@.subrange(0, l@.len() as int) =~= f@.take(l@.len() as int));
    let digits = slice_subrange(f.as_slice(), l.len(), f.len());
    assert(digits@ =~= f@.skip(l@.len() as int));
    number_in(digits, u64::MAX)
}

impl State {
    /// Take in a line of the state file.
    fn add_line(&mut self, line: &[char])
        requires
            old(self).wf(),
        ensures
            final(self).wf(),
            final(self)@ == with_line(old(self)@, line@),
    {
        let f = split_fields(line, 5);
        let ghost parts = fields(line@, 5);
        assert(forall|i: int| 0 <= i < f@.len() ==> (#[trigger] f@[i])@ == texts(f@)[i]);
        assert(f@.len() == texts(f@).len());
        if f.len() == 5 && str_eq(f[0].as_str(), "MESSAGE") {
            match (
                labelled_number(f[2].as_str(), "msg_id:"),
                labelled_number(f[3].as_str(), "ch_id:"),
                labelled_number(f[4].as_str(), "hash:"),
            ) {
                (Some(message_id), Some(channel_id), Some(content_hash)) => {
                    self.managed.insert(
                        unescape_tsv(f[1].as_str()),
                        ManagedMsg { message_id, channel_id, content_hash },
                    );
                },
                _ => {},
            }
        } else if f.len() == 3 && str_eq(f[0].as_str(), "CHANNEL") {
            if let Some(id) = labelled_number(f[2].as_str(), "ch_id:") {
                self.channels.insert(unescape_tsv(f[1].as_str()), id);
            }
        } else if f.len() == 3 && str_eq(f[0].as_str(), "ROLE") {
            if let Some(id) = labelled_number(f[2].as_str(), "role_id:") {
                self.roles.insert(unescape_tsv(f[1].as_str()), id);
            }
        }
    }
}

/// The state that the contents of a state file stand for.
pub fn load(text: &str) -> (r: State)
    ensures
        r.wf(),
        r@ == loaded(text@),
{
    let chars = chars_of(text);
    let mut state = State::new();
    let mut from: usize = 0;
    assert(chars@.skip(0) =~= chars@);
    while from < chars.len()
        invariant
            chars@ == text@,
            state.wf(),
            from <= chars@.len(),
            with_lines(state@, text_lines(chars@.skip(from as int))) == loaded(text@),
        decreases chars@.len() - from,
    {
        let ghost rest = chars@.skip(from as int);
        let ghost all = text_lines(rest);
        let nl: usize = find_char(chars.as_slice(), '\n', from);
        let mut end: usize = nl;
        if nl < chars.len() && nl > from && chars[nl - 1] == '\r' {
            end = nl - 1;
        }
        let line = slice_subrange(chars.as_slice(), from, end);
        proof {
            assert(line@ =~= all[0]);
        }
        state.add_line(line);
        if nl < chars.len() {
            from = nl + 1;
            assert(all.skip(1) =~= text_lines(chars@.skip(from as int))) by {
                assert(rest.skip(find(rest, '\n') + 1) =~= chars@.skip(from as int));
            }
        } else {
            from = nl;
            assert(all.skip(1) =~= Seq::<Seq<char>>::empty());
            assert(chars@.skip(from as int) =~= Seq::<char>::empty());
            assert(text_lines(chars@.skip(from as int)) =~= Seq::<Seq<char>>::empty());
        }
    }
    assert(chars@.skip(from as int) =~= Seq::<char>::empty());
    assert(text_lines(chars@.skip(from as int)) =~= Seq::<Seq<char>>::empty());
    state
}

} // verus!
