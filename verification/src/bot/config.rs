//! The configuration, and noticing when it changes.
use vstd::prelude::*;

use crate::discord::heartbeat::elapsed;
use crate::discord::intent;
use crate::ext::{lowercase, to_lowercase};
use crate::json::{field_text, json_field, json_text_field};
use crate::text::{str_eq, texts};

verus! {

/// How often the configuration file is looked at, in nanoseconds: every five
/// seconds.
pub const POLL_INTERVAL: u64 = 5_000_000_000;

/// The part of the configuration that is about the platform.
#[derive(Debug)]
pub struct PlatformConfig {
    pub token: String,
    pub guild_id: u64,
    pub intents: Vec<String>,
    pub user_agent: Option<String>,
}

/// The whole configuration but for the bot's own part.
#[derive(Debug)]
pub struct FullConfig {
    pub platform: PlatformConfig,
    pub log_file: Option<String>,
}

/// Where the configuration is found.
pub fn default_path() -> (r: &'static str)
    ensures
        r@ == "config.json"@,
{
    "config.json"
}

/// The intent of that name, in lower case; 0 if there is none.
pub open spec fn intent_named(name: Seq<char>) -> u64 {
    if name == "guilds"@ {
        intent::GUILDS
    } else if name == "guild_members"@ {
        intent::GUILD_MEMBERS
    } else if name == "guild_moderation"@ {
        intent::GUILD_MODERATION
    } else if name == "guild_expressions"@ {
        intent::GUILD_EXPRESSIONS
    } else if name == "guild_integrations"@ {
        intent::GUILD_INTEGRATIONS
    } else if name == "guild_webhooks"@ {
        intent::GUILD_WEBHOOKS
    } else if name == "guild_invites"@ {
        intent::GUILD_INVITES
    } else if name == "guild_voice_states"@ {
        intent::GUILD_VOICE_STATES
    } else if name == "guild_presences"@ {
        intent::GUILD_PRESENCES
    } else if name == "guild_messages"@ {
        intent::GUILD_MESSAGES
    } else if name == "guild_message_reactions"@ {
        intent::GUILD_MESSAGE_REACTIONS
    } else if name == "guild_message_typing"@ {
        intent::GUILD_MESSAGE_TYPING
    } else if name == "direct_messages"@ {
        intent::DIRECT_MESSAGES
    } else if name == "direct_message_reactions"@ {
        intent::DIRECT_MESSAGE_REACTIONS
    } else if name == "direct_message_typing"@ {
        intent::DIRECT_MESSAGE_TYPING
    } else if name == "message_content"@ {
        intent::MESSAGE_CONTENT
    } else if name == "guild_scheduled_events"@ {
        intent::GUILD_SCHEDULED_EVENTS
    } else if name == "auto_moderation_configuration"@ {
        intent::AUTO_MODERATION_CONFIGURATION
    } else if name == "auto_moderation_execution"@ {
        intent::AUTO_MODERATION_EXECUTION
    } else if name == "guild_message_polls"@ {
        intent::GUILD_MESSAGE_POLLS
    } else if name == "direct_message_polls"@ {
        intent::DIRECT_MESSAGE_POLLS
    } else {
        0
    }
}

/// The intent of that name, in lower case; 0 if there is none.
pub fn intent_of(name: &str) -> (r: u64)
    ensures
        r == intent_named(name@),
{
    if str_eq(name, "guilds") {
        intent::GUILDS
    } else if str_eq(name, "guild_members") {
        intent::GUILD_MEMBERS
    } else if str_eq(name, "guild_moderation") {
        intent::GUILD_MODERATION
    } else if str_eq(name, "guild_expressions") {
        intent::GUILD_EXPRESSIONS
    } else if str_eq(name, "guild_integrations") {
        intent::GUILD_INTEGRATIONS
    } else if str_eq(name, "guild_webhooks") {
        intent::GUILD_WEBHOOKS
    } else if str_eq(name, "guild_invites") {
        intent::GUILD_INVITES
    } else if str_eq(name, "guild_voice_states") {
        intent::GUILD_VOICE_STATES
    } else if str_eq(name, "guild_presences") {
        intent::GUILD_PRESENCES
    } else if str_eq(name, "guild_messages") {
        intent::GUILD_MESSAGES
    } else if str_eq(name, "guild_message_reactions") {
        intent::GUILD_MESSAGE_REACTIONS
    } else if str_eq(name, "guild_message_typing") {
        intent::GUILD_MESSAGE_TYPING
    } else if str_eq(name, "direct_messages") {
        intent::DIRECT_MESSAGES
    } else if str_eq(name, "direct_message_reactions") {
        intent::DIRECT_MESSAGE_REACTIONS
    } else if str_eq(name, "direct_message_typing") {
        intent::DIRECT_MESSAGE_TYPING
    } else if str_eq(name, "message_content") {
        intent::MESSAGE_CONTENT
    } else if str_eq(name, "guild_scheduled_events") {
        intent::GUILD_SCHEDULED_EVENTS
    } else if str_eq(name, "auto_moderation_configuration") {
        intent::AUTO_MODERATION_CONFIGURATION
    } else if str_eq(name, "auto_moderation_execution") {
        intent::AUTO_MODERATION_EXECUTION
    } else if str_eq(name, "guild_message_polls") {
        intent::GUILD_MESSAGE_POLLS
    } else if str_eq(name, "direct_message_polls") {
        intent::DIRECT_MESSAGE_POLLS
    } else {
        0
    }
}

/// The intents of some names together.
pub open spec fn intents_named(names: Seq<String>) -> u64
    decreases names.len(),
{
    if names.len() == 0 {
        0
    } else {
        intents_named(names.drop_last()) | intent_named(lowercase(names.last()@))
    }
}

/// The intents that are asked for where none are configured.
pub open spec fn default_intents() -> u64 {
    intent::GUILDS | intent::GUILD_MESSAGES | intent::GUILD_MESSAGE_REACTIONS
        | intent::MESSAGE_CONTENT
}

impl PlatformConfig {
    /// The intents that the configuration asks for.
    pub open spec fn wanted_intents(self) -> u64 {
        if self.intents@.len() == 0 {
            default_intents()
        } else {
            intents_named(self.intents@)
        }
    }

    /// The intents that the configuration asks for.  Names are taken whatever
    /// their case, and those that are not known are left out.
    pub fn intent_bits(&self) -> (r: u64)
        ensures
            r == self.wanted_intents(),
    {
        if self.intents.len() == 0 {
            return intent::GUILDS | intent::GUILD_MESSAGES | intent::GUILD_MESSAGE_REACTIONS
                | intent::MESSAGE_CONTENT;
        }
        let mut bits: u64 = 0;
        let mut i: usize = 0;
        while i < self.intents.len()
            invariant
                i <= self.intents@.len(),
                bits == intents_named(self.intents@.take(i as int)),
            decreases self.intents@.len() - i,
        {
            bits = bits | intent_of(to_lowercase(self.intents[i].as_str()).as_str());
            i = i + 1;
            assert(self.intents@.take(i as int).drop_last() =~= self.intents@.take(i - 1));
        }
        assert(self.intents@.take(i as int) =~= self.intents@);
        bits
    }
}

/// The names, in lower case, that stand for no intent.
pub open spec fn unknown_names(names: Seq<String>) -> Seq<Seq<char>>
    decreases names.len(),
{
    if names.len() == 0 {
        Seq::empty()
    } else {
        let before = unknown_names(names.drop_last());
        let name = lowercase(names.last()@);
        if intent_named(name) == 0 {
            before.push(name)
        } else {
            before
        }
    }
}

impl PlatformConfig {
    /// The configured intents that are not known, in lower case: they are left
    /// out, and worth a warning.
    pub fn unknown_intents(&self) -> (r: Vec<String>)
        ensures
            texts(r@) == unknown_names(self.intents@),
    {
        let mut r: Vec<String> = Vec::new();
        let mut i: usize = 0;
        assert(texts(r@) =~= unknown_names(self.intents@.take(0)));
        while i < self.intents.len()
            invariant
                i <= self.intents@.len(),
                texts(r@) == unknown_names(self.intents@.take(i as int)),
            decreases self.intents@.len() - i,
        {
            let name = to_lowercase(self.intents[i].as_str());
            let ghost before = texts(r@);
            let ghost low = name@;
            if intent_of(name.as_str()) == 0 {
                r.push(name);
                assert(texts(r@) =~= before.push(low));
            }
            i = i + 1;
            assert(self.intents@.take(i as int).drop_last() =~= self.intents@.take(i - 1));
        }
        assert(self.intents@.take(i as int) =~= self.intents@);
        r
    }
}

/// The path of the log file that the configuration's text names, if it names
/// one; or what is wrong with the text.
pub fn log_file_of(text: &str) -> (r: Result<Option<String>, String>)
    ensures
        field_text(r) == json_text_field(text@, "log_file"@),
{
    json_field(text, "log_file")
}

/// The text of an optional string.
pub open spec fn opt_view(s: Option<String>) -> Option<Seq<char>> {
    match s {
        Some(s) => Some(s@),
        None => None,
    }
}

fn opt_eq(a: &Option<String>, b: &Option<String>) -> (r: bool)
    ensures
        r == (opt_view(*a) == opt_view(*b)),
{
    match (a, b) {
        (Some(a), Some(b)) => str_eq(a.as_str(), b.as_str()),
        (None, None) => true,
        _ => false,
    }
}

impl FullConfig {
    /// Whether something differs that only a restart can change: token, guild,
    /// intents or log file.
    pub fn needs_restart(&self, running: &FullConfig) -> (r: bool)
        ensures
            r <==> self.platform.token@ != running.platform.token@ || self.platform.guild_id
                != running.platform.guild_id || self.platform.wanted_intents()
                != running.platform.wanted_intents() || opt_view(self.log_file) != opt_view(
                running.log_file,
            ),
    {
        !str_eq(self.platform.token.as_str(), running.platform.token.as_str())
            || self.platform.guild_id != running.platform.guild_id || self.platform.intent_bits()
            != running.platform.intent_bits() || !opt_eq(&self.log_file, &running.log_file)
    }
}

/// Watches the configuration file.  Times are nanoseconds; the modification
/// time is by the file system's clock, the rest by the caller's.
#[derive(Debug)]
pub struct Watcher {
    pub mtime: u64,
    pub last_check: u64,
}

impl Watcher {
    /// Begin to watch a file with that modification time, if it has one.
    pub fn new(mtime: Option<u64>, now: u64) -> (r: Self)
        ensures
            r == (Watcher {
                mtime: match mtime {
                    Some(t) => t,
                    None => 0,
                },
                last_check: now,
            }),
    {
        Watcher {
            mtime: match mtime {
                Some(t) => t,
                None => 0,
            },
            last_check: now,
        }
    }

    /// It is time to look at the file.
    pub open spec fn is_due(self, now: u64) -> bool {
        elapsed(self.last_check, now) >= POLL_INTERVAL
    }

    /// The watcher after it was asked whether it is time to look.
    pub open spec fn polled(self, now: u64) -> Watcher {
        if self.is_due(now) {
            Watcher { last_check: now, ..self }
        } else {
            self
        }
    }

    /// A file with that modification time is to be loaded.
    pub open spec fn wants(self, mtime: Option<u64>) -> bool {
        mtime matches Some(t) && t != self.mtime
    }

    /// The watcher after a look at the file.
    pub open spec fn finished(self, mtime: Option<u64>, loaded: bool) -> Watcher {
        if loaded && self.wants(mtime) {
            Watcher { mtime: mtime->0, ..self }
        } else {
            self
        }
    }

    /// Whether it is time to look at the file.
    pub fn poll(&mut self, now: u64) -> (due: bool)
        ensures
            due == old(self).is_due(now),
            *final(self) == old(self).polled(now),
    {
        if now.saturating_sub(self.last_check) < POLL_INTERVAL {
            return false;
        }
        self.last_check = now;
        true
    }

    /// Whether a file with that modification time is to be loaded.
    pub fn is_changed(&self, mtime: Option<u64>) -> (r: bool)
        ensures
            r == self.wants(mtime),
    {
        match mtime {
            Some(t) => t != self.mtime,
            None => false,
        }
    }

    /// The end of a look at the file: it had that modification time, if any,
    /// and was loaded or not.  Returns whether there is a new configuration.
    /// Only then is the modification time remembered, so that a file that
    /// cannot be loaded is tried again at the next look.
    pub fn finish_poll(&mut self, mtime: Option<u64>, loaded: bool) -> (r: bool)
        ensures
            r == (loaded && old(self).wants(mtime)),
            *final(self) == old(self).finished(mtime, loaded),
    {
        match mtime {
            Some(t) => {
                if loaded && t != self.mtime {
                    self.mtime = t;
                    true
                } else {
                    false
                }
            },
            None => false,
        }
    }
}

/// A changed file gives a new configuration at the first look that loads it.
/// One that cannot be loaded is wanted at the next look again, and one that was
/// loaded is not until it changes once more.  Looks are five seconds apart.
pub proof fn law_config_is_reloaded(w: Watcher, now: u64, mtime: Option<u64>, loaded: bool)
    ensures
        !w.is_due(now) ==> w.polled(now) == w,
        w.is_due(now) ==> {
            let w1 = w.polled(now);
            let w2 = w1.finished(mtime, loaded);
            &&& w1.wants(mtime) == w.wants(mtime)
            &&& w2.mtime == (if w.wants(mtime) && loaded {
                mtime->0
            } else {
                w.mtime
            })
            &&& w2.wants(mtime) == (w.wants(mtime) && !loaded)
            &&& forall|later: u64|
                w2.is_due(later) <==> later >= now && later - now >= POLL_INTERVAL
        },
{
}

/// Every intent that the configuration names is asked for.
pub proof fn law_named_intents_are_asked_for(names: Seq<String>, i: int)
    requires
        0 <= i < names.len(),
    ensures
        intents_named(names) & intent_named(lowercase(names[i]@)) == intent_named(
            lowercase(names[i]@),
        ),
    decreases names.len(),
{
    let rest = intents_named(names.drop_last());
    let last = intent_named(lowercase(names.last()@));
    let one = intent_named(lowercase(names[i]@));
    if i < names.len() - 1 {
        law_named_intents_are_asked_for(names.drop_last(), i);
        assert(names.drop_last()[i] == names[i]);
        assert((rest | last) & one == one) by (bit_vector)
            requires
                rest & one == one,
        ;
    } else {
        assert((rest | last) & last == last) by (bit_vector);
    }
}

} // verus!
