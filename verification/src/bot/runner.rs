//! The runner: what it makes of gateway events, when it retries, and how it
//! carries out what the bot asks for.
use vstd::prelude::*;
use vstd::utf8::encode_utf8;

use crate::bot::host::{action_ok, no_actions, up_to_date, Bot, Host, HostModel, MAX_ACTIONS};
use crate::bot::names::NameMap;
use crate::bot::refs::{
    ChannelRef, MessageRef, Ref, RefRegistry, RegistryModel, UserRef, DIRECT_BIT,
};
use crate::bot::state::{content_hash, hash_of, ManagedMsg, State, StateModel};
use crate::bot::tracker::{
    channels_after, lookup_of, roles_after, ChannelRoleTracker, Lookup, NameTracker, Seen,
};
use crate::bot::types::{models, Action, ActionModel, Event};
use crate::discord::api::{
    check_status, content_body, message_path, messages_path, percent_bytes, posted_id,
    role_path, ApiRequest, HttpApi,
};
use crate::discord::error::Error;
use crate::discord::gateway::SessData;
use crate::discord::http::Method;
use crate::discord::message;
use crate::discord::session::PollError;
use crate::json::json_text_field;
use crate::text::{decimal, texts, with_number};

verus! {

/// Where the state is kept.
pub fn state_file() -> (r: &'static str)
    ensures
        r@ == "state.dat"@,
{
    "state.dat"
}

/// A bot event is that gateway event, with references in place of IDs.
pub open spec fn converts_to(raw: message::Event, r: Option<Event>) -> bool {
    match raw {
        message::Event::ReactionAdd(x) => reaction_is(x, true, r),
        message::Event::ReactionRemove(x) => reaction_is(x, false, r),
        message::Event::MessageCreate(x) => {
            &&& r matches Some(
                Event::MessageCreate { message_id, channel, author, author_name, content },
            )
            &&& message_id.raw_value() == x.id | DIRECT_BIT
            &&& channel.raw_value() == x.channel_id | DIRECT_BIT
            &&& author.raw_value() == x.author.id | DIRECT_BIT
            &&& author_name@ == x.author.username@
            &&& content@ == x.content@
        },
        message::Event::MessageUpdate(x) => {
            &&& r matches Some(Event::MessageUpdate { message, channel, content })
            &&& message.raw_value() == x.id | DIRECT_BIT
            &&& channel.raw_value() == x.channel_id | DIRECT_BIT
            &&& match (content, x.content) {
                (Some(a), Some(b)) => a@ == b@,
                (None, None) => true,
                _ => false,
            }
        },
        message::Event::MessageDelete(x) => {
            &&& r matches Some(Event::MessageDelete { message, channel })
            &&& message.raw_value() == x.id | DIRECT_BIT
            &&& channel.raw_value() == x.channel_id | DIRECT_BIT
        },
        message::Event::Ready(_) | message::Event::Resumed | message::Event::GuildCreate(_) =>
            r is None,
    }
}

/// A bot event is that reaction.
pub open spec fn reaction_is(x: message::Reaction, is_added: bool, r: Option<Event>) -> bool {
    &&& r matches Some(Event::Reaction { user, channel, message, emoji, added })
    &&& user.raw_value() == x.user_id | DIRECT_BIT
    &&& channel.raw_value() == x.channel_id | DIRECT_BIT
    &&& message.raw_value() == x.message_id | DIRECT_BIT
    &&& emoji@ == x.emoji.text()
    &&& added == is_added
}

fn reaction_event(x: &message::Reaction, added: bool) -> (r: Option<Event>)
    ensures
        reaction_is(*x, added, r),
{
    Some(
        Event::Reaction {
            user: UserRef::from_id(x.user_id),
            channel: ChannelRef::from_id(x.channel_id),
            message: MessageRef::from_id(x.message_id),
            emoji: x.emoji.to_text(),
            added,
        },
    )
}

/// The bot event for a gateway event, if there is one.
pub fn convert_event(raw: &message::Event) -> (r: Option<Event>)
    ensures
        converts_to(*raw, r),
{
    match raw {
        message::Event::ReactionAdd(x) => reaction_event(x, true),
        message::Event::ReactionRemove(x) => reaction_event(x, false),
        message::Event::MessageCreate(x) => Some(
            Event::MessageCreate {
                message_id: MessageRef::from_id(x.id),
                channel: ChannelRef::from_id(x.channel_id),
                author: UserRef::from_id(x.author.id),
                author_name: x.author.username.clone(),
                content: x.content.clone(),
            },
        ),
        message::Event::MessageUpdate(x) => Some(
            Event::MessageUpdate {
                message: MessageRef::from_id(x.id),
                channel: ChannelRef::from_id(x.channel_id),
                content: match &x.content {
                    Some(content) => Some(content.clone()),
                    None => None,
                },
            },
        ),
        message::Event::MessageDelete(x) => Some(
            Event::MessageDelete {
                message: MessageRef::from_id(x.id),
                channel: ChannelRef::from_id(x.channel_id),
            },
        ),
        message::Event::Ready(_) | message::Event::Resumed | message::Event::GuildCreate(_) => None,
    }
}

/// Why a session ended for good.
#[derive(Debug)]
pub enum FatalError {
    /// The gateway refuses the configuration.
    Gateway(Error),
    /// There is no session.
    NotConnected,
    /// The bot is not in the configured guild.
    GuildNotFound(u64),
}

impl FatalError {
    /// What the error says.
    pub open spec fn text(self) -> Seq<char> {
        match self {
            FatalError::Gateway(e) => e.text(),
            FatalError::NotConnected => "not connected"@,
            FatalError::GuildNotFound(id) => "guild "@ + decimal(id as nat)
                + " not found in READY guilds list"@,
        }
    }

    /// What the error says.
    pub fn message(&self) -> (r: String)
        ensures
            r@ == self.text(),
    {
        match self {
            FatalError::Gateway(e) => e.message(),
            FatalError::NotConnected => "not connected".to_string(),
            FatalError::GuildNotFound(id) => {
                let mut r = with_number("guild ", *id);
                r.append(" not found in READY guilds list");
                r
            },
        }
    }
}

/// How a session ended.
#[derive(Debug)]
pub enum SessionExit {
    /// Recoverable: retry, with or without resume data.
    Retry(Error),
    /// Configuration error: do not retry.
    Fatal(FatalError),
}

/// How a session begins.
#[derive(Debug)]
pub enum SessionStart {
    Resume(SessData),
    Connect,
}

/// What the runner keeps between events.
pub struct Runner {
    pub registry: RefRegistry,
    pub state: State,
    pub tracker: ChannelRoleTracker,
    pub guild_id: u64,
    pub resume_data: Option<SessData>,
}

/// What is known of some names after those that were not known have been
/// looked up among what was seen.  What is known already stays: it was
/// remembered deliberately.
pub open spec fn seeded(
    known: Map<Seq<char>, u64>,
    names: Seq<Seq<char>>,
    seen: Seq<Seen>,
) -> Map<Seq<char>, u64>
    decreases names.len(),
{
    if names.len() == 0 {
        known
    } else {
        let before = seeded(known, names.drop_last(), seen);
        match lookup_of(seen, names.last()) {
            Lookup::One(id) => if before.dom().contains(names.last()) {
                before
            } else {
                before.insert(names.last(), id)
            },
            _ => before,
        }
    }
}

/// The names that are not known and of which nothing is certain, as several
/// things that were seen have them.
pub open spec fn ambiguous(
    known: Map<Seq<char>, u64>,
    names: Seq<Seq<char>>,
    seen: Seq<Seen>,
) -> Seq<Seq<char>>
    decreases names.len(),
{
    if names.len() == 0 {
        Seq::empty()
    } else {
        let before = ambiguous(known, names.drop_last(), seen);
        if !known.dom().contains(names.last()) && lookup_of(seen, names.last())
            == Lookup::Ambiguous {
            before.push(names.last())
        } else {
            before
        }
    }
}

/// The names that are not known and of which nothing is certain.
fn ambiguous_names(known: &NameMap<u64>, names: &[String], seen: &NameTracker) -> (r: Vec<String>)
    requires
        known.wf(),
        seen.wf(),
    ensures
        texts(r@) == ambiguous(known@, texts(names@), seen.seen()),
{
    let ghost all = texts(names@);
    let mut r: Vec<String> = Vec::new();
    let mut i: usize = 0;
    assert(texts(r@) =~= ambiguous(known@, all.take(0), seen.seen()));
    while i < names.len()
        invariant
            known.wf(),
            seen.wf(),
            all == texts(names@),
            i <= names@.len(),
            texts(r@) == ambiguous(known@, all.take(i as int), seen.seen()),
        decreases names@.len() - i,
    {
        let name = names[i].as_str();
        assert(name@ == all[i as int]);
        let ghost before = texts(r@);
        if !known.contains_key(name) {
            if let Lookup::Ambiguous = seen.lookup(name) {
                r.push(name.to_string());
                assert(texts(r@) =~= before.push(name@));
            }
        }
        i = i + 1;
        proof {
            assert(all.take(i as int).drop_last() =~= all.take(i - 1));
            assert(all.take(i as int).last() == name@);
        }
    }
    assert(all.take(i as int) =~= all);
    r
}

proof fn lemma_seeded_names_are_certain(
    known: Map<Seq<char>, u64>,
    names: Seq<Seq<char>>,
    seen: Seq<Seen>,
    name: Seq<char>,
)
    requires
        lookup_of(seen, name) == Lookup::Ambiguous,
    ensures
        seeded(known, names, seen).dom().contains(name) == known.dom().contains(name),
    decreases names.len(),
{
    if names.len() > 0 {
        lemma_seeded_names_are_certain(known, names.drop_last(), seen, name);
    }
}

/// A start does not settle what is ambiguous: the names that are so before it
/// are so after it.
pub proof fn law_start_leaves_ambiguous_names(
    known: Map<Seq<char>, u64>,
    names: Seq<Seq<char>>,
    seen: Seq<Seen>,
    some: Seq<Seq<char>>,
)
    ensures
        ambiguous(seeded(known, names, seen), some, seen) == ambiguous(known, some, seen),
    decreases some.len(),
{
    if some.len() > 0 {
        law_start_leaves_ambiguous_names(known, names, seen, some.drop_last());
        if lookup_of(seen, some.last()) == Lookup::Ambiguous {
            lemma_seeded_names_are_certain(known, names, seen, some.last());
        }
    }
}

/// Look names that are not known up among what was seen.  Returns whether
/// anything was found.
fn seed(known: &mut NameMap<u64>, names: &[String], seen: &NameTracker) -> (changed: bool)
    requires
        old(known).wf(),
        seen.wf(),
    ensures
        final(known).wf(),
        final(known)@ == seeded(old(known)@, texts(names@), seen.seen()),
        changed == (final(known)@ != old(known)@),
{
    let ghost all = texts(names@);
    let mut changed: bool = false;
    let mut i: usize = 0;
    assert(all.take(0) =~= Seq::<Seq<char>>::empty());
    while i < names.len()
        invariant
            known.wf(),
            seen.wf(),
            all == texts(names@),
            i <= names@.len(),
            known@ == seeded(old(known)@, all.take(i as int), seen.seen()),
            old(known)@.dom().subset_of(known@.dom()),
            changed == (known@ != old(known)@),
        decreases names@.len() - i,
    {
        let name = names[i].as_str();
        assert(name@ == all[i as int]);
        let ghost before = known@;
        if !known.contains_key(name) {
            if let Lookup::One(id) = seen.lookup(name) {
                known.insert(name.to_string(), id);
                changed = true;
                assert(known@.dom().contains(name@));
                assert(!old(known)@.dom().contains(name@));
            }
        }
        i = i + 1;
        proof {
            assert(all.take(i as int).drop_last() =~= all.take(i - 1));
            assert(all.take(i as int).last() == name@);
        }
    }
    assert(all.take(i as int) =~= all);
    changed
}

impl Runner {
    pub open spec fn wf(&self) -> bool {
        self.registry.wf() && self.state.wf() && self.tracker.wf()
    }

    /// Begin with the stable names of the configuration and the state that was
    /// loaded.
    pub fn new(registry: RefRegistry, state: State, guild_id: u64) -> (r: Self)
        requires
            registry.wf(),
            state.wf(),
        ensures
            r.wf(),
            r.registry == registry,
            r.state == state,
            r.guild_id == guild_id,
            r.resume_data is None,
            r.tracker.channels.seen() == Seq::<Seen>::empty(),
            r.tracker.roles.seen() == Seq::<Seen>::empty(),
    {
        Runner {
            registry,
            state,
            tracker: ChannelRoleTracker::new(),
            guild_id,
            resume_data: None,
        }
    }

    /// How the next session begins: resume data is used up.
    pub fn begin_session(&mut self) -> (r: SessionStart)
        ensures
            *final(self) == (Runner { resume_data: None, ..*old(self) }),
            r == (match old(self).resume_data {
                Some(data) => SessionStart::Resume(data),
                None => SessionStart::Connect,
            }),
    {
        let mut taken: Option<SessData> = None;
        std::mem::swap(&mut taken, &mut self.resume_data);
        match taken {
            Some(data) => SessionStart::Resume(data),
            None => SessionStart::Connect,
        }
    }

    /// Fails unless the bot is in the configured guild.
    pub fn check_guild(&self, guild_ids: &[u64]) -> (r: Result<(), SessionExit>)
        ensures
            r == (if guild_ids@.contains(self.guild_id) {
                Ok::<(), SessionExit>(())
            } else {
                Err(SessionExit::Fatal(FatalError::GuildNotFound(self.guild_id)))
            }),
    {
        let mut i: usize = 0;
        while i < guild_ids.len()
            invariant
                i <= guild_ids@.len(),
                forall|k: int| 0 <= k < i ==> guild_ids@[k] != self.guild_id,
            decreases guild_ids@.len() - i,
        {
            if guild_ids[i] == self.guild_id {
                return Ok(());
            }
            i = i + 1;
        }
        Err(SessionExit::Fatal(FatalError::GuildNotFound(self.guild_id)))
    }

    /// The bot event for a gateway event.  The configured guild's channels and
    /// roles are noted, and count as a start, as does a resumed session.
    pub fn on_event(&mut self, raw: &message::Event) -> (r: Option<Event>)
        requires
            old(self).wf(),
        ensures
            final(self).wf(),
            final(self).registry == old(self).registry,
            final(self).state == old(self).state,
            final(self).guild_id == old(self).guild_id,
            final(self).resume_data == old(self).resume_data,
            match *raw {
                message::Event::Resumed => r == Some(Event::Started) && final(self).tracker == old(
                    self,
                ).tracker,
                message::Event::GuildCreate(gc) => if gc.id == old(self).guild_id {
                    &&& r == Some(Event::Started)
                    &&& final(self).tracker.channels.seen() == channels_after(
                        old(self).tracker.channels.seen(),
                        gc.channels@,
                    )
                    &&& final(self).tracker.roles.seen() == roles_after(
                        old(self).tracker.roles.seen(),
                        gc.roles@,
                    )
                } else {
                    r is None && final(self).tracker == old(self).tracker
                },
                raw => converts_to(raw, r) && final(self).tracker == old(self).tracker,
            },
    {
        match raw {
            message::Event::Resumed => Some(Event::Started),
            message::Event::GuildCreate(gc) => {
                if gc.id != self.guild_id {
                    return None;
                }
                self.tracker.load_guild(gc.channels.as_slice(), gc.roles.as_slice());
                Some(Event::Started)
            },
            raw => convert_event(raw),
        }
    }

    /// Whether an error from polling ends the session, and how.
    pub fn on_poll_error(&mut self, error: PollError) -> (r: Option<SessionExit>)
        ensures
            final(self).registry == old(self).registry,
            final(self).state == old(self).state,
            final(self).tracker == old(self).tracker,
            final(self).guild_id == old(self).guild_id,
            final(self).resume_data == (match error {
                PollError::Resume { error, session } => Some(*session),
                _ => old(self).resume_data,
            }),
            r == (match error {
                PollError::Resume { error, session } => Some(SessionExit::Retry(error)),
                PollError::Reconnect(error) => Some(SessionExit::Retry(error)),
                PollError::Fatal(error) => Some(SessionExit::Fatal(FatalError::Gateway(error))),
                PollError::Transient(_) => None,
                PollError::NotConnected => Some(SessionExit::Fatal(FatalError::NotConnected)),
            }),
    {
        match error {
            PollError::Resume { error, session } => {
                self.resume_data = Some(*session);
                Some(SessionExit::Retry(error))
            },
            PollError::Reconnect(error) => Some(SessionExit::Retry(error)),
            PollError::Fatal(error) => Some(SessionExit::Fatal(FatalError::Gateway(error))),
            PollError::Transient(_) => None,
            PollError::NotConnected => Some(SessionExit::Fatal(FatalError::NotConnected)),
        }
    }

    /// How many seconds to wait before the next session: one before a resume,
    /// five before a fresh one, for which the guild is forgotten.
    pub fn retry_delay(&mut self) -> (seconds: u64)
        requires
            old(self).wf(),
        ensures
            final(self).wf(),
            final(self).registry == old(self).registry,
            final(self).state == old(self).state,
            final(self).guild_id == old(self).guild_id,
            final(self).resume_data == old(self).resume_data,
            if old(self).resume_data is Some {
                seconds == 1 && final(self).tracker == old(self).tracker
            } else {
                &&& seconds == 5
                &&& final(self).tracker.channels.seen() == Seq::<Seen>::empty()
                &&& final(self).tracker.roles.seen() == Seq::<Seen>::empty()
            },
    {
        if self.resume_data.is_some() {
            1
        } else {
            self.tracker.clear();
            5
        }
    }

    /// Prepare for a start: stable names that are not known are looked up in
    /// the guild, and all names are resolved.  Returns whether the state has
    /// changed and is to be saved.
    pub fn start(&mut self) -> (changed: bool)
        requires
            old(self).wf(),
        ensures
            final(self).wf(),
            final(self).tracker == old(self).tracker,
            final(self).guild_id == old(self).guild_id,
            final(self).resume_data == old(self).resume_data,
            final(self).state@ == (StateModel {
                channels: seeded(
                    old(self).state@.channels,
                    old(self).registry.model().channels.names,
                    old(self).tracker.channels.seen(),
                ),
                roles: seeded(
                    old(self).state@.roles,
                    old(self).registry.model().roles.names,
                    old(self).tracker.roles.seen(),
                ),
                managed: old(self).state@.managed,
            }),
            final(self).registry.model() == old(self).registry.model().normalized(
                final(self).state@.channels,
                final(self).state@.roles,
                final(self).state@.managed,
            ),
            changed == (final(self).state@ != old(self).state@),
    {
        let names = self.registry.channel_names();
        assert(texts(names@) =~= self.registry.model().channels.names);
        let channels_changed: bool = seed(
            &mut self.state.channels,
            names,
            &self.tracker.channels,
        );
        let names = self.registry.role_names();
        assert(texts(names@) =~= self.registry.model().roles.names);
        let roles_changed: bool = seed(&mut self.state.roles, names, &self.tracker.roles);
        self.registry.normalize(&self.state.channels, &self.state.roles, &self.state.managed);
        channels_changed || roles_changed
    }

    /// The stable names of channels that match several channels: they stand for
    /// nothing until one is put into the state file, and are worth a warning.
    pub fn ambiguous_channels(&self) -> (r: Vec<String>)
        requires
            self.wf(),
        ensures
            texts(r@) == ambiguous(
                self.state@.channels,
                self.registry.model().channels.names,
                self.tracker.channels.seen(),
            ),
    {
        let names = self.registry.channel_names();
        assert(texts(names@) =~= self.registry.model().channels.names);
        ambiguous_names(&self.state.channels, names, &self.tracker.channels)
    }

    /// The stable names of roles that match several roles.
    pub fn ambiguous_roles(&self) -> (r: Vec<String>)
        requires
            self.wf(),
        ensures
            texts(r@) == ambiguous(
                self.state@.roles,
                self.registry.model().roles.names,
                self.tracker.roles.seen(),
            ),
    {
        let names = self.registry.role_names();
        assert(texts(names@) =~= self.registry.model().roles.names);
        ambiguous_names(&self.state.roles, names, &self.tracker.roles)
    }

    /// What a handler finds before it asks for anything.
    pub open spec fn fresh_host(&self, bot_user_id: u64) -> HostModel {
        HostModel {
            names: self.registry.model(),
            known: self.state@.managed,
            user: UserRef::direct(bot_user_id),
            queue: no_actions(),
            logged: Some(Seq::empty()),
        }
    }

    /// Let the bot handle an event.  Gives the actions that it asks for, or its
    /// error and how many actions were dropped with it; the lines to log; and
    /// how many actions were dropped because there were too many.
    pub fn handle<B: Bot>(&self, bot: &B, event: &Event, bot_user_id: u64) -> (r: (
        Result<Vec<Action>, (String, usize)>,
        Vec<String>,
        u64,
    ))
        requires
            self.wf(),
            bot.wf(),
        ensures
            exists|after: HostModel, result: Result<(), String>|
                #[trigger] bot.responds(*event, self.fresh_host(bot_user_id), after, result)
                    && after.logged == Some(texts(r.1@)) && r.2 == after.queue.dropped
                    && match result {
                    Ok(()) => r.0 matches Ok(actions) && models(actions@) == after.queue.actions,
                    Err(e) => r.0 == Err::<Vec<Action>, (String, usize)>(
                        (e, after.queue.actions.len() as usize),
                    ),
                },
            r.0 matches Ok(actions) ==> actions@.len() <= MAX_ACTIONS && forall|i: int|
                0 <= i < actions@.len() ==> action_ok((#[trigger] actions@[i])@),
    {
        let mut host = Host::new(
            &self.state.managed,
            &self.registry,
            UserRef::from_id(bot_user_id),
        );
        assert(host.model() == self.fresh_host(bot_user_id));
        let result = bot.handle_event(event, &mut host);
        let ghost after = host.model();
        assert(bot.responds(*event, self.fresh_host(bot_user_id), after, result));
        let dropped: u64 = host.dropped();
        let (actions, lines) = host.into_actions();
        assert(models(actions@).len() == actions@.len());
        match result {
            Ok(()) => {
                assert forall|i: int| 0 <= i < actions@.len() implies action_ok(
                    (#[trigger] actions@[i])@,
                ) by {
                    assert(models(actions@)[i] == actions@[i]@);
                    assert(action_ok(after.queue.actions[i]));
                }
                (Ok(actions), lines, dropped)
            },
            Err(e) => (Err((e, actions.len())), lines, dropped),
        }
    }
}

/// Why an action is not carried out.
#[derive(Debug, Clone, Copy, PartialEq, Eq, Structural)]
pub enum SkipReason {
    UnresolvedChannel,
    UnresolvedMessage,
    UnresolvedUser,
    UnresolvedRole,
    /// A managed message is in another channel; its entry in the state file
    /// must be deleted to move it.
    OtherChannel,
}

impl SkipReason {
    /// What the reason says.
    pub open spec fn text(self) -> Seq<char> {
        match self {
            SkipReason::UnresolvedChannel => "unresolved channel"@,
            SkipReason::UnresolvedMessage => "unresolved message"@,
            SkipReason::UnresolvedUser => "unresolved user"@,
            SkipReason::UnresolvedRole => "unresolved role"@,
            SkipReason::OtherChannel =>
                "managed message already exists in a different channel, delete its state.dat entry to move it"@,
        }
    }

    /// What the reason says.
    pub fn message(&self) -> (r: &'static str)
        ensures
            r@ == self.text(),
    {
        match self {
            SkipReason::UnresolvedChannel => "unresolved channel",
            SkipReason::UnresolvedMessage => "unresolved message",
            SkipReason::UnresolvedUser => "unresolved user",
            SkipReason::UnresolvedRole => "unresolved role",
            SkipReason::OtherChannel =>
                "managed message already exists in a different channel, delete its state.dat entry to move it",
        }
    }
}

/// What is to be done with the answer to an action's request.
#[derive(Debug)]
pub enum Follow {
    /// Nothing, if the request succeeded.
    Nothing,
    /// Nothing, if the message was posted.
    Message,
    /// The managed message of that name was edited.
    Edited { name: String, entry: ManagedMsg },
    /// The managed message of that name was posted.
    Posted { name: String, channel_id: u64, content_hash: u64 },
}

/// How an action is carried out.
#[derive(Debug)]
pub enum Plan {
    Skip(SkipReason),
    Call { request: ApiRequest, follow: Follow },
}

/// The request is that one.
pub open spec fn request_is(
    r: ApiRequest,
    method: Method,
    path: Seq<char>,
    body: Option<Seq<char>>,
) -> bool {
    &&& r.method == method
    &&& r.path@ == path
    &&& match (r.body, body) {
        (Some(a), Some(b)) => a@ == b,
        (None, None) => true,
        _ => false,
    }
}

/// How an action is carried out, given what references stand for and which
/// messages are managed.
pub open spec fn plan_is(
    action: ActionModel,
    m: RegistryModel,
    managed: Map<Seq<char>, ManagedMsg>,
    guild_id: u64,
    plan: Plan,
) -> bool {
    match action {
        ActionModel::SendMessage { channel, content } => match channel.meaning(m) {
            None => plan == Plan::Skip(SkipReason::UnresolvedChannel),
            Some(channel_id) => {
                &&& plan matches Plan::Call { request, follow }
                &&& request_is(
                    request,
                    Method::Post,
                    messages_path(channel_id),
                    Some(content_body(content)),
                )
                &&& follow == Follow::Message
            },
        },
        ActionModel::EditMessage { channel, message, content } => match (
            channel.meaning(m),
            message.meaning(m),
        ) {
            (None, _) => plan == Plan::Skip(SkipReason::UnresolvedChannel),
            (Some(_), None) => plan == Plan::Skip(SkipReason::UnresolvedMessage),
            (Some(channel_id), Some(message_id)) => {
                &&& plan matches Plan::Call { request, follow }
                &&& request_is(
                    request,
                    Method::Patch,
                    message_path(channel_id, message_id),
                    Some(content_body(content)),
                )
                &&& follow == Follow::Nothing
            },
        },
        ActionModel::AddRole { user, role } => match (user.meaning(m), role.meaning(m)) {
            (None, _) => plan == Plan::Skip(SkipReason::UnresolvedUser),
            (Some(_), None) => plan == Plan::Skip(SkipReason::UnresolvedRole),
            (Some(user_id), Some(role_id)) => {
                &&& plan matches Plan::Call { request, follow }
                &&& request_is(request, Method::Put, role_path(guild_id, user_id, role_id), None)
                &&& follow == Follow::Nothing
            },
        },
        ActionModel::RemoveRole { user, role } => match (user.meaning(m), role.meaning(m)) {
            (None, _) => plan == Plan::Skip(SkipReason::UnresolvedUser),
            (Some(_), None) => plan == Plan::Skip(SkipReason::UnresolvedRole),
            (Some(user_id), Some(role_id)) => {
                &&& plan matches Plan::Call { request, follow }
                &&& request_is(
                    request,
                    Method::Delete,
                    role_path(guild_id, user_id, role_id),
                    None,
                )
                &&& follow == Follow::Nothing
            },
        },
        ActionModel::AddReaction { channel, message, emoji } => match (
            channel.meaning(m),
            message.meaning(m),
        ) {
            (None, _) => plan == Plan::Skip(SkipReason::UnresolvedChannel),
            (Some(_), None) => plan == Plan::Skip(SkipReason::UnresolvedMessage),
            (Some(channel_id), Some(message_id)) => {
                &&& plan matches Plan::Call { request, follow }
                &&& request_is(
                    request,
                    Method::Put,
                    message_path(channel_id, message_id) + "/reactions/"@ + percent_bytes(
                        encode_utf8(emoji),
                    ) + "/@me"@,
                    None,
                )
                &&& follow == Follow::Nothing
            },
        },
        ActionModel::UpsertMessage { message, channel, content } => match (
            m.message_name(message.raw_value()),
            channel.meaning(m),
        ) {
            (None, _) => plan == Plan::Skip(SkipReason::UnresolvedMessage),
            (Some(_), None) => plan == Plan::Skip(SkipReason::UnresolvedChannel),
            (Some(name), Some(channel_id)) => upsert_plan_is(
                name,
                channel_id,
                content,
                managed,
                plan,
            ),
        },
    }
}

/// How a managed message is brought up to date: it is posted if it is not
/// known, else edited, but never moved.
pub open spec fn upsert_plan_is(
    name: Seq<char>,
    channel_id: u64,
    content: Seq<char>,
    managed: Map<Seq<char>, ManagedMsg>,
    plan: Plan,
) -> bool {
    if managed.dom().contains(name) {
        let message_id = managed[name].message_id;
        if managed[name].channel_id != channel_id {
            plan == Plan::Skip(SkipReason::OtherChannel)
        } else {
            &&& plan matches Plan::Call { request, follow }
            &&& request_is(
                request,
                Method::Patch,
                message_path(channel_id, message_id),
                Some(content_body(content)),
            )
            &&& follow matches Follow::Edited { name: n, entry }
            &&& n@ == name
            &&& entry.message_id == message_id
            &&& entry.channel_id == channel_id
            &&& entry.content_hash == hash_of(content)
        }
    } else {
        &&& plan matches Plan::Call { request, follow }
        &&& request_is(
            request,
            Method::Post,
            messages_path(channel_id),
            Some(content_body(content)),
        )
        &&& follow matches Follow::Posted { name: n, channel_id: c, content_hash }
        &&& n@ == name
        &&& c == channel_id
        &&& content_hash == hash_of(content)
    }
}

/// What an edited or posted managed message does to the runner: it is
/// remembered, and the names are resolved anew.
pub open spec fn remembers(before: Runner, name: Seq<char>, entry: ManagedMsg, after: Runner) -> bool {
    &&& after.wf()
    &&& after.state@ == (StateModel {
        managed: before.state@.managed.insert(name, entry),
        ..before.state@
    })
    &&& after.registry.model() == before.registry.model().normalized(
        after.state@.channels,
        after.state@.roles,
        after.state@.managed,
    )
    &&& after.tracker == before.tracker
    &&& after.guild_id == before.guild_id
    &&& after.resume_data == before.resume_data
}

/// What the answer to an action's request does: an error or a failing status
/// changes nothing; a managed message that was edited, or posted with an ID, is
/// remembered.
pub open spec fn finish_is(
    before: Runner,
    follow: Follow,
    answer: Result<(u16, String), Error>,
    r: Result<bool, Error>,
    after: Runner,
) -> bool {
    match answer {
        Err(e) => r == Err::<bool, Error>(e) && after == before,
        Ok((status, body)) => if !(200 <= status < 300) {
            &&& r == Err::<bool, Error>(Error::ApiError { status })
            &&& after == before
        } else {
            match follow {
                Follow::Nothing => {
                    &&& r == Ok::<bool, Error>(false)
                    &&& after == before
                },
                Follow::Edited { name, entry } => {
                    &&& r == Ok::<bool, Error>(true)
                    &&& remembers(before, name@, entry, after)
                },
                Follow::Message => {
                    &&& after == before
                    &&& match json_text_field(body@, "id"@) {
                        Ok(_) => r == Ok::<bool, Error>(false),
                        Err(e) => r matches Err(Error::Json(x)) && x@ == e,
                    }
                },
                Follow::Posted { name, channel_id, content_hash } => exists|
                    id: Result<Option<u64>, Error>,
                |
                    #[trigger] posted_id(json_text_field(body@, "id"@), id) && match id {
                        Ok(Some(message_id)) => {
                            &&& r == Ok::<bool, Error>(true)
                            &&& remembers(
                                before,
                                name@,
                                ManagedMsg { message_id, channel_id, content_hash },
                                after,
                            )
                        },
                        Ok(None) => {
                            &&& r == Ok::<bool, Error>(false)
                            &&& after == before
                        },
                        Err(e) => {
                            &&& r == Err::<bool, Error>(e)
                            &&& after == before
                        },
                    },
            }
        },
    }
}

impl Runner {
    /// How an action is carried out.
    pub fn plan(&self, action: &Action) -> (r: Plan)
        requires
            self.wf(),
            action_ok(action@),
        ensures
            plan_is(action@, self.registry.model(), self.state@.managed, self.guild_id, r),
    {
        match action {
            Action::SendMessage { channel, content } => match self.registry.resolve_channel(
                *channel,
            ) {
                None => Plan::Skip(SkipReason::UnresolvedChannel),
                Some(channel_id) => Plan::Call {
                    request: HttpApi::send_message(channel_id, content.as_str()),
                    follow: Follow::Message,
                },
            },
            Action::EditMessage { channel, message, content } => {
                let channel_id: u64 = match self.registry.resolve_channel(*channel) {
                    Some(id) => id,
                    None => {
                        return Plan::Skip(SkipReason::UnresolvedChannel);
                    },
                };
                let message_id: u64 = match self.registry.resolve_message(*message) {
                    Some(id) => id,
                    None => {
                        return Plan::Skip(SkipReason::UnresolvedMessage);
                    },
                };
                Plan::Call {
                    request: HttpApi::edit_message(channel_id, message_id, content.as_str()),
                    follow: Follow::Nothing,
                }
            },
            Action::AddRole { user, role } => {
                let user_id: u64 = match self.registry.resolve_user(*user) {
                    Some(id) => id,
                    None => {
                        return Plan::Skip(SkipReason::UnresolvedUser);
                    },
                };
                let role_id: u64 = match self.registry.resolve_role(*role) {
                    Some(id) => id,
                    None => {
                        return Plan::Skip(SkipReason::UnresolvedRole);
                    },
                };
                Plan::Call {
                    request: HttpApi::add_role(self.guild_id, user_id, role_id),
                    follow: Follow::Nothing,
                }
            },
            Action::RemoveRole { user, role } => {
                let user_id: u64 = match self.registry.resolve_user(*user) {
                    Some(id) => id,
                    None => {
                        return Plan::Skip(SkipReason::UnresolvedUser);
                    },
                };
                let role_id: u64 = match self.registry.resolve_role(*role) {
                    Some(id) => id,
                    None => {
                        return Plan::Skip(SkipReason::UnresolvedRole);
                    },
                };
                Plan::Call {
                    request: HttpApi::remove_role(self.guild_id, user_id, role_id),
                    follow: Follow::Nothing,
                }
            },
            Action::AddReaction { channel, message, emoji } => {
                let channel_id: u64 = match self.registry.resolve_channel(*channel) {
                    Some(id) => id,
                    None => {
                        return Plan::Skip(SkipReason::UnresolvedChannel);
                    },
                };
                let message_id: u64 = match self.registry.resolve_message(*message) {
                    Some(id) => id,
                    None => {
                        return Plan::Skip(SkipReason::UnresolvedMessage);
                    },
                };
                Plan::Call {
                    request: HttpApi::add_reaction(channel_id, message_id, emoji.as_str()),
                    follow: Follow::Nothing,
                }
            },
            Action::UpsertMessage { message, channel, content } => {
                let name = match self.registry.message_name(*message) {
                    Some(name) => name,
                    None => {
                        return Plan::Skip(SkipReason::UnresolvedMessage);
                    },
                };
                let channel_id: u64 = match self.registry.resolve_channel(*channel) {
                    Some(id) => id,
                    None => {
                        return Plan::Skip(SkipReason::UnresolvedChannel);
                    },
                };
                let content_hash: u64 = content_hash(content.as_str());
                match self.state.managed.get(name) {
                    Some(existing) => {
                        if existing.channel_id != channel_id {
                            return Plan::Skip(SkipReason::OtherChannel);
                        }
                        let message_id: u64 = existing.message_id;
                        Plan::Call {
                            request: HttpApi::edit_message(
                                channel_id,
                                message_id,
                                content.as_str(),
                            ),
                            follow: Follow::Edited {
                                name: name.to_string(),
                                entry: ManagedMsg { message_id, channel_id, content_hash },
                            },
                        }
                    },
                    None => Plan::Call {
                        request: HttpApi::send_message(channel_id, content.as_str()),
                        follow: Follow::Posted {
                            name: name.to_string(),
                            channel_id,
                            content_hash,
                        },
                    },
                }
            },
        }
    }

    /// Remember a managed message, and resolve the names anew.
    pub fn remember(&mut self, name: String, entry: ManagedMsg)
        requires
            old(self).wf(),
        ensures
            remembers(*old(self), name@, entry, *final(self)),
    {
        self.state.managed.insert(name, entry);
        self.registry.normalize(&self.state.channels, &self.state.roles, &self.state.managed);
    }

    /// Take in the answer to the post of a managed message: with an ID, the
    /// message is remembered.  Returns whether the state is to be saved.
    pub fn posted(
        &mut self,
        name: String,
        channel_id: u64,
        content_hash: u64,
        answer: Result<Option<u64>, Error>,
    ) -> (r: Result<bool, Error>)
        requires
            old(self).wf(),
        ensures
            final(self).wf(),
            match answer {
                Ok(Some(message_id)) => {
                    &&& r == Ok::<bool, Error>(true)
                    &&& remembers(
                        *old(self),
                        name@,
                        ManagedMsg { message_id, channel_id, content_hash },
                        *final(self),
                    )
                },
                Ok(None) => r == Ok::<bool, Error>(false) && *final(self) == *old(self),
                Err(e) => r == Err::<bool, Error>(e) && *final(self) == *old(self),
            },
    {
        match answer {
            Ok(Some(message_id)) => {
                self.remember(name, ManagedMsg { message_id, channel_id, content_hash });
                Ok(true)
            },
            Ok(None) => Ok(false),
            Err(e) => Err(e),
        }
    }

    /// Take in the answer to an action's request.  Returns whether the state is
    /// to be saved.
    pub fn finish(&mut self, follow: Follow, answer: Result<(u16, String), Error>) -> (r: Result<
        bool,
        Error,
    >)
        requires
            old(self).wf(),
        ensures
            final(self).wf(),
            finish_is(*old(self), follow, answer, r, *final(self)),
    {
        let (status, body) = match answer {
            Ok(answer) => answer,
            Err(e) => {
                return Err(e);
            },
        };
        match follow {
            Follow::Nothing => match check_status(status) {
                Ok(()) => Ok(false),
                Err(e) => Err(e),
            },
            Follow::Edited { name, entry } => match check_status(status) {
                Ok(()) => {
                    self.remember(name, entry);
                    Ok(true)
                },
                Err(e) => Err(e),
            },
            Follow::Message => match HttpApi::message_sent(status, body.as_str()) {
                Ok(_) => Ok(false),
                Err(e) => Err(e),
            },
            Follow::Posted { name, channel_id, content_hash } => {
                let id = HttpApi::message_sent(status, body.as_str());
                let ghost answer_id = id;
                assert(200 <= status < 300 ==> posted_id(
                    json_text_field(body@, "id"@),
                    answer_id,
                ));
                self.posted(name, channel_id, content_hash, id)
            },
        }
    }
}

/// A managed message that was posted or edited is up to date: the bot does not
/// ask for the same again.
pub proof fn law_upsert_settles(
    before: Runner,
    after: Runner,
    message: MessageRef,
    channel: ChannelRef,
    content: Seq<char>,
    name: Seq<char>,
    entry: ManagedMsg,
)
    requires
        before.registry.model().message_name(message.raw_value()) == Some(name),
        channel.meaning(after.registry.model()) == Some(entry.channel_id),
        entry.content_hash == hash_of(content),
        remembers(before, name, entry, after),
    ensures
        up_to_date(
            message,
            channel,
            content,
            after.registry.model(),
            after.state@.managed,
        ),
{
}

/// What is remembered of a name is not overwritten by what the guild has.
pub proof fn law_seeding_keeps_what_is_known(
    known: Map<Seq<char>, u64>,
    names: Seq<Seq<char>>,
    seen: Seq<Seen>,
    name: Seq<char>,
)
    requires
        known.dom().contains(name),
    ensures
        seeded(known, names, seen).dom().contains(name),
        seeded(known, names, seen)[name] == known[name],
    decreases names.len(),
{
    if names.len() > 0 {
        law_seeding_keeps_what_is_known(known, names.drop_last(), seen, name);
    }
}

/// A name that several things have is never resolved by guessing.
pub proof fn law_ambiguous_names_stay_unknown(
    known: Map<Seq<char>, u64>,
    names: Seq<Seq<char>>,
    seen: Seq<Seen>,
    name: Seq<char>,
)
    requires
        !known.dom().contains(name),
        lookup_of(seen, name) == Lookup::Ambiguous,
    ensures
        !seeded(known, names, seen).dom().contains(name),
    decreases names.len(),
{
    if names.len() > 0 {
        law_ambiguous_names_stay_unknown(known, names.drop_last(), seen, name);
    }
}

} // verus!
