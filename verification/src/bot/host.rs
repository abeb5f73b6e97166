//! What event handlers act through.
use vstd::prelude::*;

use crate::bot::logger::{format_entry, log_text};
use crate::bot::names::NameMap;
use crate::bot::refs::{
    empty_registry, ChannelRef, MessageRef, Ref, RefRegistry, RegistryModel, RoleRef, UserRef,
    DIRECT_BIT,
};
use crate::bot::state::{content_hash, hash_of, hashable, ManagedMsg};
use crate::bot::types::{log_of, models, Action, ActionModel, Event, LogEntry};
use crate::text::texts;

verus! {

/// Maximum number of actions a single event handler invocation may queue, so
/// that runaway handlers do not exhaust memory.
pub const MAX_ACTIONS: usize = 100;

/// The state and the stable names as they are, the log, and the actions that
/// the handler has asked for.
pub struct Host<'a> {
    managed: Option<&'a NameMap<ManagedMsg>>,
    registry: Option<&'a RefRegistry>,
    log: Option<Vec<String>>,
    bot_user_id: UserRef,
    actions: Vec<Action>,
    dropped: u64,
}

/// The actions asked for.
pub struct QueueModel {
    pub actions: Seq<ActionModel>,
    /// How many were dropped because there were too many (at most a `u64`
    /// counts).
    pub dropped: u64,
}

/// No actions.
pub open spec fn no_actions() -> QueueModel {
    QueueModel { actions: Seq::empty(), dropped: 0 }
}

/// A host: what it knows, and what it was asked for.
pub struct HostModel {
    pub names: RegistryModel,
    pub known: Map<Seq<char>, ManagedMsg>,
    pub user: UserRef,
    /// The actions asked for so far.
    pub queue: QueueModel,
    /// The lines logged so far, if there is a log.
    pub logged: Option<Seq<Seq<char>>>,
}

/// The queue after one more action: beyond its limit, actions are dropped.
pub open spec fn queued(queue: QueueModel, action: ActionModel) -> QueueModel {
    if queue.actions.len() < MAX_ACTIONS {
        QueueModel { actions: queue.actions.push(action), ..queue }
    } else if queue.dropped < u64::MAX {
        QueueModel { dropped: (queue.dropped + 1) as u64, ..queue }
    } else {
        queue
    }
}

/// The log after an event, if there is a log.
pub open spec fn logged_after(
    lines: Option<Seq<Seq<char>>>,
    event: Event,
    m: RegistryModel,
) -> Option<Seq<Seq<char>>> {
    match (lines, log_of(event, m)) {
        (Some(lines), Some(entry)) => Some(lines.push(log_text(entry))),
        (lines, _) => lines,
    }
}

/// Two references stand for the same thing: for the same ID, or, if neither
/// stands for anything, they are the same.
pub open spec fn same_thing<T: Ref>(a: T, b: T, m: RegistryModel) -> bool {
    match (a.meaning(m), b.meaning(m)) {
        (Some(x), Some(y)) => x == y,
        (None, None) => a.raw_value() == b.raw_value(),
        _ => false,
    }
}

/// A managed message is as it should be: it has a name, and what is known
/// under the name has that content and is in that channel.
pub open spec fn up_to_date(
    message: MessageRef,
    channel: ChannelRef,
    content: Seq<char>,
    m: RegistryModel,
    managed: Map<Seq<char>, ManagedMsg>,
) -> bool {
    match m.message_name(message.raw_value()) {
        Some(name) => {
            &&& managed.dom().contains(name)
            &&& managed[name].content_hash == hash_of(content)
            &&& channel.meaning(m) == Some(managed[name].channel_id)
        },
        None => false,
    }
}

/// An action that can be carried out as far as its texts go.
pub open spec fn action_ok(a: ActionModel) -> bool {
    a matches ActionModel::UpsertMessage { message, channel, content } ==> hashable(content)
}

impl<'a> Host<'a> {
    pub closed spec fn names(&self) -> RegistryModel {
        match self.registry {
            Some(r) => r.model(),
            None => empty_registry(),
        }
    }

    pub closed spec fn known(&self) -> Map<Seq<char>, ManagedMsg> {
        match self.managed {
            Some(m) => m@,
            None => Map::empty(),
        }
    }

    pub closed spec fn user(&self) -> UserRef {
        self.bot_user_id
    }

    /// The actions asked for so far.
    pub closed spec fn queue(&self) -> QueueModel {
        QueueModel { actions: models(self.actions@), dropped: self.dropped }
    }

    /// The lines logged so far, if there is a log.
    pub closed spec fn logged(&self) -> Option<Seq<Seq<char>>> {
        match self.log {
            Some(lines) => Some(texts(lines@)),
            None => None,
        }
    }

    pub open spec fn model(&self) -> HostModel {
        HostModel {
            names: self.names(),
            known: self.known(),
            user: self.user(),
            queue: self.queue(),
            logged: self.logged(),
        }
    }

    pub closed spec fn parts_wf(&self) -> bool {
        self.managed matches Some(m) ==> m.wf()
    }

    /// The queue is within its limit, and its actions can be carried out.
    pub open spec fn wf(&self) -> bool {
        &&& self.parts_wf()
        &&& self.queue().actions.len() <= MAX_ACTIONS
        &&& forall|i: int|
            0 <= i < self.queue().actions.len() ==> action_ok(#[trigger] self.queue().actions[i])
    }

    /// The surroundings are the same.
    pub open spec fn same_context(&self, other: &Host) -> bool {
        &&& self.names() == other.names()
        &&& self.known() == other.known()
        &&& self.user() == other.user()
        &&& self.logged() is Some == other.logged() is Some
    }

    pub fn new(
        managed: &'a NameMap<ManagedMsg>,
        registry: &'a RefRegistry,
        bot_user_id: UserRef,
    ) -> (r: Host<'a>)
        requires
            managed.wf(),
        ensures
            r.wf(),
            r.names() == registry.model(),
            r.known() == managed@,
            r.user() == bot_user_id,
            r.queue() == no_actions(),
            r.logged() == Some(Seq::<Seq<char>>::empty()),
    {
        let r = Host {
            managed: Some(managed),
            registry: Some(registry),
            log: Some(Vec::new()),
            bot_user_id,
            actions: Vec::new(),
            dropped: 0,
        };
        assert(r.queue().actions =~= Seq::<ActionModel>::empty());
        assert(r.logged()->0 =~= Seq::<Seq<char>>::empty());
        r
    }

    /// A host that knows nothing and logs nothing.
    pub fn empty() -> (r: Host<'a>)
        ensures
            r.wf(),
            r.names() == empty_registry(),
            r.known() == Map::<Seq<char>, ManagedMsg>::empty(),
            r.user().raw_value() == DIRECT_BIT,
            r.queue() == no_actions(),
            r.logged() is None,
    {
        let r = Host {
            managed: None,
            registry: None,
            log: None,
            bot_user_id: UserRef::from_id(0),
            actions: Vec::new(),
            dropped: 0,
        };
        assert(r.queue().actions =~= Seq::<ActionModel>::empty());
        assert(0u64 | 0x8000_0000_0000_0000u64 == 0x8000_0000_0000_0000u64) by (bit_vector);
        r
    }

    /// The bot itself.
    pub fn bot_user(&self) -> (r: UserRef)
        ensures
            r == self.user(),
    {
        self.bot_user_id
    }

    fn push_action(&mut self, action: Action)
        requires
            old(self).wf(),
            action_ok(action@),
        ensures
            final(self).wf(),
            final(self).same_context(old(self)),
            final(self).logged() == old(self).logged(),
            final(self).queue() == queued(old(self).queue(), action@),
    {
        if self.actions.len() >= MAX_ACTIONS {
            self.dropped = self.dropped.saturating_add(1);
            return;
        }
        let ghost model = action@;
        self.actions.push(action);
        assert(self.queue().actions =~= old(self).queue().actions.push(model));
    }

    /// Log an event.
    pub fn log(&mut self, event: &Event)
        requires
            old(self).wf(),
        ensures
            final(self).wf(),
            final(self).same_context(old(self)),
            final(self).queue() == old(self).queue(),
            final(self).logged() == logged_after(
                old(self).logged(),
                *event,
                old(self).names(),
            ),
    {
        let entry = match self.registry {
            Some(registry) => LogEntry::from_event(event, registry),
            None => LogEntry::from_event(event, &RefRegistry::new()),
        };
        if let Some(entry) = entry {
            if let Some(lines) = &mut self.log {
                let line = format_entry(&entry);
                lines.push(line);
            }
            proof {
                if old(self).log is Some {
                    assert(self.logged()->0 =~= old(self).logged()->0.push(log_text(entry@)));
                }
            }
        }
    }

    /// Ask for a message to be sent.
    pub fn send_message(&mut self, channel: ChannelRef, content: &str)
        requires
            old(self).wf(),
        ensures
            final(self).wf(),
            final(self).same_context(old(self)),
            final(self).logged() == old(self).logged(),
            final(self).queue() == queued(
                old(self).queue(),
                ActionModel::SendMessage { channel, content: content@ },
            ),
    {
        self.push_action(Action::SendMessage { channel, content: content.to_string() });
    }

    /// Ask for a message's content to be replaced.
    pub fn edit_message(&mut self, channel: ChannelRef, message: MessageRef, content: &str)
        requires
            old(self).wf(),
        ensures
            final(self).wf(),
            final(self).same_context(old(self)),
            final(self).logged() == old(self).logged(),
            final(self).queue() == queued(
                old(self).queue(),
                ActionModel::EditMessage { channel, message, content: content@ },
            ),
    {
        self.push_action(Action::EditMessage { channel, message, content: content.to_string() });
    }

    /// Ask for a role to be given to a user.
    pub fn add_role(&mut self, user: UserRef, role: RoleRef)
        requires
            old(self).wf(),
        ensures
            final(self).wf(),
            final(self).same_context(old(self)),
            final(self).logged() == old(self).logged(),
            final(self).queue() == queued(old(self).queue(), ActionModel::AddRole { user, role }),
    {
        self.push_action(Action::AddRole { user, role });
    }

    /// Ask for a reaction to be added to a message.
    pub fn add_reaction(&mut self, channel: ChannelRef, message: MessageRef, emoji: &str)
        requires
            old(self).wf(),
        ensures
            final(self).wf(),
            final(self).same_context(old(self)),
            final(self).logged() == old(self).logged(),
            final(self).queue() == queued(
                old(self).queue(),
                ActionModel::AddReaction { channel, message, emoji: emoji@ },
            ),
    {
        self.push_action(Action::AddReaction { channel, message, emoji: emoji.to_string() });
    }

    /// Ask for a role to be taken from a user.
    pub fn remove_role(&mut self, user: UserRef, role: RoleRef)
        requires
            old(self).wf(),
        ensures
            final(self).wf(),
            final(self).same_context(old(self)),
            final(self).logged() == old(self).logged(),
            final(self).queue() == queued(
                old(self).queue(),
                ActionModel::RemoveRole { user, role },
            ),
    {
        self.push_action(Action::RemoveRole { user, role });
    }

    /// Ask for a managed message to be posted or brought up to date, unless it
    /// is up to date.
    pub fn upsert_message(&mut self, message: MessageRef, channel: ChannelRef, content: &str)
        requires
            old(self).wf(),
            hashable(content@),
        ensures
            final(self).wf(),
            final(self).same_context(old(self)),
            final(self).logged() == old(self).logged(),
            final(self).queue() == (if up_to_date(
                message,
                channel,
                content@,
                old(self).names(),
                old(self).known(),
            ) {
                old(self).queue()
            } else {
                queued(
                    old(self).queue(),
                    ActionModel::UpsertMessage { message, channel, content: content@ },
                )
            }),
    {
        let hash: u64 = content_hash(content);
        if let Some(registry) = self.registry {
            if let Some(managed) = self.managed {
                let channel_id = registry.resolve_channel(channel);
                if let Some(name) = registry.message_name(message) {
                    if let Some(entry) = managed.get(name) {
                        if let Some(id) = channel_id {
                            if entry.content_hash == hash && id == entry.channel_id {
                                return;
                            }
                        }
                    }
                }
            }
        }
        self.push_action(Action::UpsertMessage { message, channel, content: content.to_string() });
    }

    /// Whether two references stand for the same thing.
    pub fn eq<T: Ref>(&self, a: T, b: T) -> (r: bool)
        ensures
            r == same_thing(a, b, self.names()),
    {
        let (x, y) = match self.registry {
            Some(registry) => (a.resolve(registry), b.resolve(registry)),
            None => {
                let registry = RefRegistry::new();
                (a.resolve(&registry), b.resolve(&registry))
            },
        };
        match (x, y) {
            (Some(x), Some(y)) => x == y,
            (None, None) => a.raw() == b.raw(),
            _ => false,
        }
    }

    /// The actions asked for so far.
    pub fn actions(&self) -> (r: &[Action])
        ensures
            models(r@) == self.queue().actions,
    {
        self.actions.as_slice()
    }

    /// How many actions were dropped so far because the queue was full.
    pub fn dropped(&self) -> (n: u64)
        ensures
            n == self.queue().dropped,
    {
        self.dropped
    }

    /// The actions asked for, and the lines logged.
    pub fn into_actions(self) -> (r: (Vec<Action>, Vec<String>))
        ensures
            models(r.0@) == self.queue().actions,
            texts(r.1@) == (match self.logged() {
                Some(lines) => lines,
                None => Seq::empty(),
            }),
    {
        let lines = match self.log {
            Some(lines) => lines,
            None => {
                let none: Vec<String> = Vec::new();
                assert(texts(none@) =~= Seq::<Seq<char>>::empty());
                none
            },
        };
        (self.actions, lines)
    }
}

/// An event handler.
pub trait Bot: Sized {
    /// The configuration is one that the bot can work with.
    spec fn wf(&self) -> bool;

    /// What the bot may make of an event: what it asks of the host, and its
    /// result.
    spec fn responds(
        &self,
        event: Event,
        before: HostModel,
        after: HostModel,
        r: Result<(), String>,
    ) -> bool;

    /// The bot for a configuration.
    fn new(config: Self) -> (r: Result<Self, String>)
        default_ensures
            r == Ok::<Self, String>(config),
    {
        Ok(config)
    }

    /// Handle an event, by asking the host for actions.
    fn handle_event(&self, event: &Event, host: &mut Host) -> (r: Result<(), String>)
        requires
            self.wf(),
            old(host).wf(),
        ensures
            final(host).wf(),
            final(host).same_context(old(host)),
            self.responds(*event, old(host).model(), final(host).model(), r),
    ;
}

} // verus!
