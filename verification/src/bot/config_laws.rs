//! What the configuration, the state file and the log say, word by word.
use vstd::prelude::*;
use vstd::utf8::encode_utf8;

use crate::bot::config::{
    default_path, intent_named, intent_of, intents_named, log_file_of, unknown_names, FullConfig,
    PlatformConfig, Watcher,
};
use crate::bot::logger::log_line;
use crate::bot::names::before;
use crate::bot::refs::{read_ref, Ref, RefError, RefRegistry, RefSpec};
use crate::bot::runner::seeded;
use crate::bot::state::{
    channel_line, content_hash, load, message_line, role_line, save, state_text, ManagedMsg,
    State,
};
use crate::bot::state_laws::law_saved_state_is_loaded;
use crate::bot::tracker::{count_named, first_named, lookup_of, Lookup, Seen};
use crate::bot::tsv::{escape_tsv, tsv_escaped, tsv_unescaped, unescape_tsv};
use crate::bot::types::{Event, LogEntry, LogModel};
use crate::bytes::le_value;
use crate::digest::sha256_digest;
use crate::ext::lowercase;
use crate::json::{field_text, json_text_field};
use crate::text::{decimal, law_decimal_round_trip, texts};

verus! {

/// A reference in the configuration is an ID behind `id:`, or a name behind
/// `stablename:`; a name that would break a line of the state file is refused,
/// and so is anything else.
pub proof fn law_config_reference(s: &str, id: u64, name: Seq<char>, r: Result<RefSpec, RefError>)
    requires
        call_ensures(read_ref, (s,), r),
    ensures
        s@ == "id:"@ + decimal(id as nat) ==> r == Ok::<RefSpec, RefError>(RefSpec::Id(id)),
        s@ == "stablename:"@ + name && !name.contains('\t') && !name.contains('\n')
            && !name.contains('\r') ==> (r matches Ok(RefSpec::Name(n)) && n@ == name),
        s@ == "stablename:"@ + name && (name.contains('\t') || name.contains('\n')
            || name.contains('\r')) ==> r == Err::<RefSpec, RefError>(RefError::InvalidName),
        !("id:"@.is_prefix_of(s@)) && !("stablename:"@.is_prefix_of(s@)) ==> r == Err::<
            RefSpec,
            RefError,
        >(RefError::InvalidForm),
{
    reveal_strlit("id:");
    reveal_strlit("stablename:");
    law_decimal_round_trip(id as nat, u64::MAX as nat);
    if s@ == "id:"@ + decimal(id as nat) {
        assert(s@.take(3) =~= "id:"@);
        assert(s@.skip(3) =~= decimal(id as nat));
    }
    if s@ == "stablename:"@ + name {
        assert(s@.take(11) =~= "stablename:"@);
        assert(s@.skip(11) =~= name);
        assert(s@.take(3)[0] == 's');
        assert("id:"@[0] == 'i');
    }
    if s@.len() >= 3 && s@.take(3) == "id:"@ {
        assert("id:"@ =~= s@.subrange(0, 3));
    }
    if s@.len() >= 11 && s@.take(11) == "stablename:"@ {
        assert("stablename:"@ =~= s@.subrange(0, 11));
    }
}

/// The intents, by name and bit.
pub proof fn law_intents(name: &str, r: u64)
    requires
        call_ensures(intent_of, (name,), r),
    ensures
        r == intent_named(name@),
        name@ == "guilds"@ ==> r == 0x1,
        name@ == "guild_members"@ ==> r == 0x2,
        name@ == "guild_moderation"@ ==> r == 0x4,
        name@ == "guild_expressions"@ ==> r == 0x8,
        name@ == "guild_integrations"@ ==> r == 0x10,
        name@ == "guild_webhooks"@ ==> r == 0x20,
        name@ == "guild_invites"@ ==> r == 0x40,
        name@ == "guild_voice_states"@ ==> r == 0x80,
        name@ == "guild_presences"@ ==> r == 0x100,
        name@ == "guild_messages"@ ==> r == 0x200,
        name@ == "guild_message_reactions"@ ==> r == 0x400,
        name@ == "guild_message_typing"@ ==> r == 0x800,
        name@ == "direct_messages"@ ==> r == 0x1000,
        name@ == "direct_message_reactions"@ ==> r == 0x2000,
        name@ == "direct_message_typing"@ ==> r == 0x4000,
        name@ == "message_content"@ ==> r == 0x8000,
        name@ == "guild_scheduled_events"@ ==> r == 0x10000,
        name@ == "auto_moderation_configuration"@ ==> r == 0x100000,
        name@ == "auto_moderation_execution"@ ==> r == 0x200000,
        name@ == "guild_message_polls"@ ==> r == 0x1000000,
        name@ == "direct_message_polls"@ ==> r == 0x2000000,
        name@.len() < 6 || name@.len() > 29 ==> r == 0,
{
    lemma_intent_names();
}

proof fn lemma_intent_names()
    ensures
        "guilds"@.len() == 6,
        "guild_members"@.len() == 13,
        "guild_members"@[6] == 'm',
        "guild_moderation"@.len() == 16,
        "guild_expressions"@.len() == 17,
        "guild_integrations"@.len() == 18,
        "guild_integrations"@[6] == 'i',
        "guild_webhooks"@.len() == 14,
        "guild_webhooks"@[6] == 'w',
        "guild_invites"@.len() == 13,
        "guild_invites"@[6] == 'i',
        "guild_voice_states"@.len() == 18,
        "guild_voice_states"@[6] == 'v',
        "guild_presences"@.len() == 15,
        "guild_presences"@[0] == 'g',
        "guild_messages"@.len() == 14,
        "guild_messages"@[6] == 'm',
        "guild_message_reactions"@.len() == 23,
        "guild_message_typing"@.len() == 20,
        "guild_message_typing"@[0] == 'g',
        "direct_messages"@.len() == 15,
        "direct_messages"@[0] == 'd',
        "direct_message_reactions"@.len() == 24,
        "direct_message_typing"@.len() == 21,
        "message_content"@.len() == 15,
        "message_content"@[0] == 'm',
        "guild_scheduled_events"@.len() == 22,
        "auto_moderation_configuration"@.len() == 29,
        "auto_moderation_execution"@.len() == 25,
        "guild_message_polls"@.len() == 19,
        "direct_message_polls"@.len() == 20,
        "direct_message_polls"@[0] == 'd',
{
    reveal_strlit("guilds");
    reveal_strlit("guild_members");
    reveal_strlit("guild_moderation");
    reveal_strlit("guild_expressions");
    reveal_strlit("guild_integrations");
    reveal_strlit("guild_webhooks");
    reveal_strlit("guild_invites");
    reveal_strlit("guild_voice_states");
    reveal_strlit("guild_presences");
    reveal_strlit("guild_messages");
    reveal_strlit("guild_message_reactions");
    reveal_strlit("guild_message_typing");
    reveal_strlit("direct_messages");
    reveal_strlit("direct_message_reactions");
    reveal_strlit("direct_message_typing");
    reveal_strlit("message_content");
    reveal_strlit("guild_scheduled_events");
    reveal_strlit("auto_moderation_configuration");
    reveal_strlit("auto_moderation_execution");
    reveal_strlit("guild_message_polls");
    reveal_strlit("direct_message_polls");
}

/// The intents that are asked for: those of the configured names, whatever their
/// case; without any names, those for guilds, their messages and reactions, and
/// what messages say.
pub proof fn law_wanted_intents(p: &PlatformConfig, r: u64, path: &'static str)
    requires
        call_ensures(PlatformConfig::intent_bits, (p,), r),
        call_ensures(default_path, (), path),
    ensures
        p.intents@.len() == 0 ==> r == 0x1 + 0x200 + 0x400 + 0x8000,
        p.intents@.len() == 1 ==> r == intent_named(lowercase(p.intents@[0]@)),
        p.intents@.len() == 2 ==> r == intent_named(lowercase(p.intents@[0]@)) | intent_named(
            lowercase(p.intents@[1]@),
        ),
        path@ == "config.json"@,
{
    assert(0x1u64 | 0x200u64 | 0x400u64 | 0x8000u64 == 0x8601u64) by (bit_vector);
    if p.intents@.len() > 0 {
        let all = p.intents@;
        let init = all.drop_last();
        if all.len() == 1 {
            assert(init =~= Seq::<String>::empty());
            let x = intent_named(lowercase(all[0]@));
            assert(0u64 | x == x) by (bit_vector);
            assert(intents_named(init) == 0);
        } else if all.len() == 2 {
            assert(init.drop_last() =~= Seq::<String>::empty());
            let x = intent_named(lowercase(all[0]@));
            assert(0u64 | x == x) by (bit_vector);
            assert(intents_named(init.drop_last()) == 0);
            assert(intents_named(init) == x);
        }
    }
}

/// The configuration file is looked at every five seconds.
pub proof fn law_looked_at_every_five_seconds(w: &mut Watcher, now: u64, due: bool)
    requires
        call_ensures(Watcher::poll, (w, now), due),
    ensures
        due <==> now >= old(w).last_check && now - old(w).last_check >= 5_000_000_000,
        due ==> final(w).last_check == now,
        !due ==> *final(w) == *old(w),
        final(w).mtime == old(w).mtime,
{
}

/// A configuration is taken in exactly if the file changed and could be loaded.
pub proof fn law_changed_file_is_taken_in(
    w: &mut Watcher,
    mtime: Option<u64>,
    loaded: bool,
    r: bool,
    wanted: bool,
    seen: &Watcher,
)
    requires
        call_ensures(Watcher::finish_poll, (w, mtime, loaded), r),
        call_ensures(Watcher::is_changed, (seen, mtime), wanted),
    ensures
        r <==> loaded && mtime is Some && mtime != Some(old(w).mtime),
        r ==> Some(final(w).mtime) == mtime,
        !r ==> final(w).mtime == old(w).mtime,
        final(w).last_check == old(w).last_check,
        wanted <==> mtime is Some && mtime != Some(seen.mtime),
{
}

/// Only a restart takes in another token, guild, log file, or other intents.
pub proof fn law_restart_is_needed(new: &FullConfig, running: &FullConfig, r: bool, x: u64, y: u64)
    requires
        call_ensures(FullConfig::needs_restart, (new, running), r),
        call_ensures(PlatformConfig::intent_bits, (&new.platform,), x),
        call_ensures(PlatformConfig::intent_bits, (&running.platform,), y),
    ensures
        new.platform.token@ != running.platform.token@ ==> r,
        new.platform.guild_id != running.platform.guild_id ==> r,
        x != y ==> r,
        new.log_file is Some != running.log_file is Some ==> r,
        new.log_file is Some && running.log_file is Some && new.log_file->0@
            != running.log_file->0@ ==> r,
        new.platform.token@ == running.platform.token@ && new.platform.guild_id
            == running.platform.guild_id && x == y && new.log_file is None
            && running.log_file is None ==> !r,
{
}

/// The log file is what the text has under `log_file`.
pub proof fn law_log_file(text: &str, r: Result<Option<String>, String>)
    requires
        call_ensures(log_file_of, (text,), r),
    ensures
        field_text(r) == json_text_field(text@, "log_file"@),
{
}

/// A name that one thing in the guild has stands for it, unless something is
/// remembered of the name already.
pub proof fn law_unique_name_is_found(
    known: Map<Seq<char>, u64>,
    names: Seq<Seq<char>>,
    seen: Seq<Seen>,
    name: Seq<char>,
    i: int,
)
    requires
        names.contains(name),
        !known.dom().contains(name),
        0 <= i < seen.len(),
        seen[i].name == name,
        forall|j: int| 0 <= j < seen.len() && j != i ==> (#[trigger] seen[j]).name != name,
    ensures
        seeded(known, names, seen).dom().contains(name),
        seeded(known, names, seen)[name] == seen[i].id,
    decreases names.len(),
{
    lemma_one_named(seen, name, i);
    lemma_seeded_one(known, names, seen, name, seen[i].id);
}

pub proof fn lemma_none_named(seen: Seq<Seen>, name: Seq<char>)
    requires
        forall|j: int| 0 <= j < seen.len() ==> (#[trigger] seen[j]).name != name,
    ensures
        count_named(seen, name) == 0,
        first_named(seen, name) is None,
    decreases seen.len(),
{
    if seen.len() > 0 {
        let init = seen.drop_last();
        assert forall|j: int| 0 <= j < init.len() implies (#[trigger] init[j]).name != name by {
            assert(init[j] == seen[j]);
        }
        lemma_none_named(init, name);
        assert(seen.last() == seen[seen.len() - 1]);
    }
}

pub proof fn lemma_one_named(seen: Seq<Seen>, name: Seq<char>, i: int)
    requires
        0 <= i < seen.len(),
        seen[i].name == name,
        forall|j: int| 0 <= j < seen.len() && j != i ==> (#[trigger] seen[j]).name != name,
    ensures
        count_named(seen, name) == 1,
        first_named(seen, name) == Some(seen[i].id),
    decreases seen.len(),
{
    let init = seen.drop_last();
    if i == seen.len() - 1 {
        assert forall|j: int| 0 <= j < init.len() implies (#[trigger] init[j]).name != name by {
            assert(init[j] == seen[j]);
        }
        lemma_none_named(init, name);
    } else {
        assert(init[i] == seen[i]);
        assert forall|j: int| 0 <= j < init.len() && j != i implies (#[trigger] init[j]).name
            != name by {
            assert(init[j] == seen[j]);
        }
        lemma_one_named(init, name, i);
        assert(seen.last() == seen[seen.len() - 1]);
    }
}

proof fn lemma_seeded_one(
    known: Map<Seq<char>, u64>,
    names: Seq<Seq<char>>,
    seen: Seq<Seen>,
    name: Seq<char>,
    id: u64,
)
    requires
        lookup_of(seen, name) == Lookup::One(id),
        !known.dom().contains(name),
    ensures
        names.contains(name) ==> seeded(known, names, seen).dom().contains(name),
        seeded(known, names, seen).dom().contains(name) ==> seeded(known, names, seen)[name] == id,
    decreases names.len(),
{
    if names.len() > 0 {
        let init = names.drop_last();
        lemma_seeded_one(known, init, seen, name, id);
        if names.contains(name) && names.last() != name {
            let k = choose|k: int| 0 <= k < names.len() && names[k] == name;
            assert(init[k] == name);
        }
    }
}

/// What the log says of an event: its IDs, and its texts as they were.  Nothing
/// is logged of a start, of an edit that does not tell the content, or of what
/// stands for nothing.
pub proof fn law_events_are_logged(event: &Event, registry: &RefRegistry, r: Option<LogEntry>)
    requires
        call_ensures(LogEntry::from_event, (event, registry), r),
    ensures
        ({
            let m = registry.model();
            match *event {
                Event::Started => r is None,
                Event::MessageCreate { message_id, channel, author, author_name, content } => {
                    &&& channel.meaning(m) is None || message_id.meaning(m) is None
                        || author.meaning(m) is None ==> r is None
                    &&& channel.meaning(m) is Some && message_id.meaning(m) is Some
                        && author.meaning(m) is Some ==> {
                        &&& r is Some
                        &&& r->0@ == (LogModel::MessageCreate {
                            channel_id: channel.meaning(m)->0,
                            message_id: message_id.meaning(m)->0,
                            author_id: author.meaning(m)->0,
                            author_name: author_name@,
                            content: content@,
                        })
                    }
                },
                Event::MessageUpdate { message, channel, content } => {
                    &&& content is None ==> r is None
                    &&& content is Some && channel.meaning(m) is Some && message.meaning(m) is Some
                        ==> {
                        &&& r is Some
                        &&& r->0@ == (LogModel::MessageEdit {
                            channel_id: channel.meaning(m)->0,
                            message_id: message.meaning(m)->0,
                            content: content->0@,
                        })
                    }
                },
                Event::MessageDelete { message, channel } => channel.meaning(m) is Some
                    && message.meaning(m) is Some ==> {
                    &&& r is Some
                    &&& r->0@ == (LogModel::MessageDelete {
                        channel_id: channel.meaning(m)->0,
                        message_id: message.meaning(m)->0,
                    })
                },
                Event::Reaction { user, channel, message, emoji, added } => channel.meaning(
                    m,
                ) is Some && message.meaning(m) is Some && user.meaning(m) is Some ==> {
                    &&& r is Some
                    &&& r->0@ == (LogModel::Reaction {
                        channel_id: channel.meaning(m)->0,
                        message_id: message.meaning(m)->0,
                        user_id: user.meaning(m)->0,
                        emoji: emoji@,
                        added,
                    })
                },
            }
        }),
{
}

/// A line of the log: the time, a tab, the entry, and the line's end.
pub proof fn law_log_line(time: u64, entry: &str, r: String)
    requires
        call_ensures(log_line, (time, entry), r),
    ensures
        r@ == decimal(time as nat) + "\t"@ + entry@ + "\n"@,
{
}

/// In a field, tabs, line ends and backslashes are written as a backslash and a
/// letter; everything else stands for itself.
pub proof fn law_tsv_escapes(s: Seq<char>, c: char, text: &str, r: String, back: String)
    requires
        call_ensures(escape_tsv, (text,), r),
        call_ensures(unescape_tsv, (text,), back),
    ensures
        r@ == tsv_escaped(text@),
        back@ == tsv_unescaped(text@),
        tsv_escaped(Seq::empty()) == Seq::<char>::empty(),
        tsv_escaped(s.push(c)) == tsv_escaped(s) + (if c == '\t' {
            seq!['\\', 't']
        } else if c == '\n' {
            seq!['\\', 'n']
        } else if c == '\r' {
            seq!['\\', 'r']
        } else if c == '\\' {
            seq!['\\', '\\']
        } else {
            seq![c]
        }),
{
    assert(s.push(c).drop_last() =~= s);
}

/// The lines of the state file.
pub proof fn law_state_file_lines(name: Seq<char>, m: ManagedMsg, id: u64)
    ensures
        message_line(name, m) == "MESSAGE\t"@ + tsv_escaped(name) + "\tmsg_id:"@ + decimal(
            m.message_id as nat,
        ) + "\tch_id:"@ + decimal(m.channel_id as nat) + "\thash:"@ + decimal(
            m.content_hash as nat,
        ),
        channel_line(name, id) == "CHANNEL\t"@ + tsv_escaped(name) + "\tch_id:"@ + decimal(
            id as nat,
        ),
        role_line(name, id) == "ROLE\t"@ + tsv_escaped(name) + "\trole_id:"@ + decimal(id as nat),
{
}

/// The state file begins with its version, and holds what is remembered, sorted
/// by name.
pub proof fn law_state_file(state: &State, r: String)
    requires
        call_ensures(save, (state,), r),
    ensures
        r@ == state_text(state.managed.listed(), state.channels.listed(), state.roles.listed()),
        "# version: 1\n"@.is_prefix_of(r@),
{
    let text = r@;
    assert(text.subrange(0, "# version: 1\n"@.len() as int) =~= "# version: 1\n"@);
}

/// Names are sorted character by character: a name that goes on comes behind,
/// and else the first difference decides.
pub proof fn law_name_order(a: Seq<char>, b: Seq<char>, c: char, d: char)
    ensures
        b.len() > 0 ==> before(Seq::empty(), b),
        !before(a, Seq::empty()),
        c < d ==> before(seq![c] + a, seq![d] + b),
        c > d ==> !before(seq![c] + a, seq![d] + b),
        before(seq![c] + a, seq![c] + b) == before(a, b),
{
    assert((seq![c] + a).skip(1) =~= a);
    assert((seq![d] + b).skip(1) =~= b);
    assert((seq![c] + b).skip(1) =~= b);
}

/// A content's hash is made of the first eight bytes of its SHA-256 digest, the
/// lowest first.
pub proof fn law_content_hash(s: &str, r: u64)
    requires
        call_ensures(content_hash, (s,), r),
        sha256_digest(encode_utf8(s@)).len() == 32,
    ensures
        ({
            let d = sha256_digest(encode_utf8(s@));
            r == d[0] + 256 * (d[1] + 256 * (d[2] + 256 * (d[3] + 256 * (d[4] + 256 * (d[5] + 256
                * (d[6] + 256 * d[7]))))))
        }),
{
    let d = sha256_digest(encode_utf8(s@)).take(8);
    reveal_with_fuel(le_value, 9);
    let d1 = d.skip(1);
    let d2 = d1.skip(1);
    let d3 = d2.skip(1);
    let d4 = d3.skip(1);
    let d5 = d4.skip(1);
    let d6 = d5.skip(1);
    let d7 = d6.skip(1);
    assert(d7.skip(1) =~= Seq::<u8>::empty());
    assert(d1[0] == d[1] && d2[0] == d[2] && d3[0] == d[3] && d4[0] == d[4] && d5[0] == d[5]
        && d6[0] == d[6] && d7[0] == d[7]);
}

/// What was saved is what is loaded.
pub proof fn law_state_round_trip(state: &State, text: &str, saved: String, loaded: State)
    requires
        call_ensures(save, (state,), saved),
        text@ == saved@,
        call_ensures(load, (text,), loaded),
    ensures
        loaded@.managed == state@.managed,
        loaded@.channels == state@.channels,
        loaded@.roles == state@.roles,
{
    law_saved_state_is_loaded(*state);
}

/// A configured intent that is none is told, in lower case.
pub proof fn law_unknown_intents(p: &PlatformConfig, r: Vec<String>)
    requires
        call_ensures(PlatformConfig::unknown_intents, (p,), r),
    ensures
        p.intents@.len() == 0 ==> r@.len() == 0,
        p.intents@.len() == 1 && intent_named(lowercase(p.intents@[0]@)) == 0 ==> r@.len() == 1
            && r@[0]@ == lowercase(p.intents@[0]@),
        p.intents@.len() == 1 && intent_named(lowercase(p.intents@[0]@)) != 0 ==> r@.len() == 0,
{
    assert(texts(r@).len() == r@.len());
    if p.intents@.len() == 1 {
        assert(p.intents@.drop_last() =~= Seq::<String>::empty());
        assert(unknown_names(p.intents@.drop_last()) =~= Seq::<Seq<char>>::empty());
        if r@.len() == 1 {
            assert(texts(r@)[0] == r@[0]@);
        }
    }
}

/// Escapes are read back; those that are not known, and a backslash at the end,
/// stay as they are.
pub proof fn law_tsv_unescapes(c: char, rest: Seq<char>)
    ensures
        tsv_unescaped(Seq::empty()) == Seq::<char>::empty(),
        tsv_unescaped(seq!['\\', c] + rest) == (if c == 't' {
            seq!['\t']
        } else if c == 'n' {
            seq!['\n']
        } else if c == 'r' {
            seq!['\r']
        } else if c == '\\' {
            seq!['\\']
        } else {
            seq!['\\', c]
        }) + tsv_unescaped(rest),
        c != '\\' ==> tsv_unescaped(seq![c] + rest) == seq![c] + tsv_unescaped(rest),
        tsv_unescaped(seq!['\\']) == seq!['\\'],
{
    assert((seq!['\\', c] + rest).skip(2) =~= rest);
    assert((seq![c] + rest).skip(1) =~= rest);
    let lone = seq!['\\'];
    assert(lone.skip(1) =~= Seq::<char>::empty());
    assert(tsv_unescaped(lone.skip(1)) =~= Seq::<char>::empty());
    assert(tsv_unescaped(lone) =~= lone);
}

} // verus!
