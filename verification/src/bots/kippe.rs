//! Managed messages and reaction roles.
use vstd::prelude::*;

use crate::bot::host::{logged_after, queued, same_thing, up_to_date, Bot, Host, HostModel, QueueModel};
use crate::bot::refs::{ChannelRef, MessageRef, RegistryModel, RoleRef, UserRef};
use crate::bot::state::{hashable, ManagedMsg};
use crate::bot::types::{ActionModel, Event};
use crate::text::str_eq;

verus! {

/// A role that comes with a reaction.
pub struct ReactionRoleMapping {
    pub message: MessageRef,
    pub emoji: String,
    pub role: RoleRef,
    /// Whether the bot adds the reaction itself, for others to follow.
    pub seed_reaction: bool,
}

/// A message that is kept as configured.
pub struct ManagedMessage {
    pub message: MessageRef,
    pub channel: ChannelRef,
    pub content: String,
}

pub struct Kippe {
    pub reaction_roles: Vec<ReactionRoleMapping>,
    pub managed_messages: Vec<ManagedMessage>,
}

/// The queue after all managed messages were asked for.
pub open spec fn after_upserts(
    queue: QueueModel,
    messages: Seq<ManagedMessage>,
    m: RegistryModel,
    known: Map<Seq<char>, ManagedMsg>,
) -> QueueModel
    decreases messages.len(),
{
    if messages.len() == 0 {
        queue
    } else {
        let before = after_upserts(queue, messages.drop_last(), m, known);
        let last = messages.last();
        if up_to_date(last.message, last.channel, last.content@, m, known) {
            before
        } else {
            queued(
                before,
                ActionModel::UpsertMessage {
                    message: last.message,
                    channel: last.channel,
                    content: last.content@,
                },
            )
        }
    }
}

/// The first managed message that a reference stands for, from the `from`th
/// on.
pub open spec fn managed_for(
    messages: Seq<ManagedMessage>,
    message: MessageRef,
    m: RegistryModel,
    from: int,
) -> Option<int>
    decreases messages.len() - from,
{
    if from < 0 || from >= messages.len() {
        None
    } else if same_thing(messages[from].message, message, m) {
        Some(from)
    } else {
        managed_for(messages, message, m, from + 1)
    }
}

/// The queue after the reactions that the bot adds itself were asked for.
pub open spec fn after_seeds(
    queue: QueueModel,
    roles: Seq<ReactionRoleMapping>,
    messages: Seq<ManagedMessage>,
    m: RegistryModel,
) -> QueueModel
    decreases roles.len(),
{
    if roles.len() == 0 {
        queue
    } else {
        let before = after_seeds(queue, roles.drop_last(), messages, m);
        let last = roles.last();
        match managed_for(messages, last.message, m, 0) {
            Some(i) => if last.seed_reaction {
                queued(
                    before,
                    ActionModel::AddReaction {
                        channel: messages[i].channel,
                        message: last.message,
                        emoji: last.emoji@,
                    },
                )
            } else {
                before
            },
            None => before,
        }
    }
}

/// The queue after a reaction: the role of each mapping for that message and
/// emoji is given if the reaction was added, and taken if it was removed.
pub open spec fn after_reaction(
    queue: QueueModel,
    roles: Seq<ReactionRoleMapping>,
    user: UserRef,
    message: MessageRef,
    emoji: Seq<char>,
    added: bool,
    m: RegistryModel,
) -> QueueModel
    decreases roles.len(),
{
    if roles.len() == 0 {
        queue
    } else {
        let before = after_reaction(queue, roles.drop_last(), user, message, emoji, added, m);
        let last = roles.last();
        if same_thing(last.message, message, m) && last.emoji@ == emoji {
            queued(
                before,
                if added {
                    ActionModel::AddRole { user, role: last.role }
                } else {
                    ActionModel::RemoveRole { user, role: last.role }
                },
            )
        } else {
            before
        }
    }
}

impl Kippe {
    /// The queue after an event.
    pub open spec fn queue_after(
        &self,
        event: Event,
        queue: QueueModel,
        m: RegistryModel,
        known: Map<Seq<char>, ManagedMsg>,
        bot_user: UserRef,
    ) -> QueueModel {
        match event {
            Event::Started => after_seeds(
                after_upserts(queue, self.managed_messages@, m, known),
                self.reaction_roles@,
                self.managed_messages@,
                m,
            ),
            Event::Reaction { user, channel, message, emoji, added } => if same_thing(
                bot_user,
                user,
                m,
            ) {
                queue
            } else {
                after_reaction(queue, self.reaction_roles@, user, message, emoji@, added, m)
            },
            _ => queue,
        }
    }

    fn upsert_all(&self, host: &mut Host)
        requires
            self.wf(),
            old(host).wf(),
        ensures
            final(host).wf(),
            final(host).same_context(old(host)),
            final(host).logged() == old(host).logged(),
            final(host).queue() == after_upserts(
                old(host).queue(),
                self.managed_messages@,
                old(host).names(),
                old(host).known(),
            ),
    {
        let mut i: usize = 0;
        assert(self.managed_messages@.take(0) =~= Seq::<ManagedMessage>::empty());
        while i < self.managed_messages.len()
            invariant
                self.wf(),
                host.wf(),
                host.same_context(old(host)),
                host.logged() == old(host).logged(),
                i <= self.managed_messages@.len(),
                host.queue() == after_upserts(
                    old(host).queue(),
                    self.managed_messages@.take(i as int),
                    old(host).names(),
                    old(host).known(),
                ),
            decreases self.managed_messages@.len() - i,
        {
            let m = &self.managed_messages[i];
            host.upsert_message(m.message, m.channel, m.content.as_str());
            i = i + 1;
            proof {
                let done = self.managed_messages@.take(i as int);
                assert(done.drop_last() =~= self.managed_messages@.take(i - 1));
                assert(done.last() == self.managed_messages@[i - 1]);
            }
        }
        assert(self.managed_messages@.take(i as int) =~= self.managed_messages@);
    }

    /// The managed message that a reference stands for.
    fn find_managed(&self, message: MessageRef, host: &Host) -> (r: Option<usize>)
        ensures
            match r {
                Some(i) => i < self.managed_messages@.len() && managed_for(
                    self.managed_messages@,
                    message,
                    host.names(),
                    0,
                ) == Some(i as int),
                None => managed_for(self.managed_messages@, message, host.names(), 0) is None,
            },
    {
        let mut i: usize = 0;
        while i < self.managed_messages.len()
            invariant
                i <= self.managed_messages@.len(),
                managed_for(self.managed_messages@, message, host.names(), 0) == managed_for(
                    self.managed_messages@,
                    message,
                    host.names(),
                    i as int,
                ),
            decreases self.managed_messages@.len() - i,
        {
            if host.eq(self.managed_messages[i].message, message) {
                return Some(i);
            }
            i = i + 1;
        }
        None
    }

    fn seed_all(&self, host: &mut Host)
        requires
            old(host).wf(),
        ensures
            final(host).wf(),
            final(host).same_context(old(host)),
            final(host).logged() == old(host).logged(),
            final(host).queue() == after_seeds(
                old(host).queue(),
                self.reaction_roles@,
                self.managed_messages@,
                old(host).names(),
            ),
    {
        let mut i: usize = 0;
        assert(self.reaction_roles@.take(0) =~= Seq::<ReactionRoleMapping>::empty());
        while i < self.reaction_roles.len()
            invariant
                host.wf(),
                host.same_context(old(host)),
                host.logged() == old(host).logged(),
                i <= self.reaction_roles@.len(),
                host.queue() == after_seeds(
                    old(host).queue(),
                    self.reaction_roles@.take(i as int),
                    self.managed_messages@,
                    old(host).names(),
                ),
            decreases self.reaction_roles@.len() - i,
        {
            let r = &self.reaction_roles[i];
            if r.seed_reaction {
                if let Some(k) = self.find_managed(r.message, host) {
                    host.add_reaction(
                        self.managed_messages[k].channel,
                        r.message,
                        r.emoji.as_str(),
                    );
                }
            }
            i = i + 1;
            proof {
                let done = self.reaction_roles@.take(i as int);
                assert(done.drop_last() =~= self.reaction_roles@.take(i - 1));
                assert(done.last() == self.reaction_roles@[i - 1]);
            }
        }
        assert(self.reaction_roles@.take(i as int) =~= self.reaction_roles@);
    }

    fn react(&self, host: &mut Host, user: UserRef, message: MessageRef, emoji: &str, added: bool)
        requires
            old(host).wf(),
        ensures
            final(host).wf(),
            final(host).same_context(old(host)),
            final(host).logged() == old(host).logged(),
            final(host).queue() == after_reaction(
                old(host).queue(),
                self.reaction_roles@,
                user,
                message,
                emoji@,
                added,
                old(host).names(),
            ),
    {
        let mut i: usize = 0;
        assert(self.reaction_roles@.take(0) =~= Seq::<ReactionRoleMapping>::empty());
        while i < self.reaction_roles.len()
            invariant
                host.wf(),
                host.same_context(old(host)),
                host.logged() == old(host).logged(),
                i <= self.reaction_roles@.len(),
                host.queue() == after_reaction(
                    old(host).queue(),
                    self.reaction_roles@.take(i as int),
                    user,
                    message,
                    emoji@,
                    added,
                    old(host).names(),
                ),
            decreases self.reaction_roles@.len() - i,
        {
            let m = &self.reaction_roles[i];
            if host.eq(m.message, message) && str_eq(m.emoji.as_str(), emoji) {
                if added {
                    host.add_role(user, m.role);
                } else {
                    host.remove_role(user, m.role);
                }
            }
            i = i + 1;
            proof {
                let done = self.reaction_roles@.take(i as int);
                assert(done.drop_last() =~= self.reaction_roles@.take(i - 1));
                assert(done.last() == self.reaction_roles@[i - 1]);
            }
        }
        assert(self.reaction_roles@.take(i as int) =~= self.reaction_roles@);
    }
}

impl Bot for Kippe {
    /// The contents of all managed messages can be hashed.
    open spec fn wf(&self) -> bool {
        forall|i: int|
            0 <= i < self.managed_messages@.len() ==> hashable(
                (#[trigger] self.managed_messages@[i]).content@,
            )
    }

    open spec fn responds(
        &self,
        event: Event,
        before: HostModel,
        after: HostModel,
        r: Result<(), String>,
    ) -> bool {
        &&& r is Ok
        &&& after == (HostModel {
            queue: self.queue_after(
                event,
                before.queue,
                before.names,
                before.known,
                before.user,
            ),
            logged: logged_after(before.logged, event, before.names),
            ..before
        })
    }

    fn handle_event(&self, event: &Event, host: &mut Host) -> (r: Result<(), String>) {
        host.log(event);
        match event {
            Event::Started => {
                self.upsert_all(host);
                self.seed_all(host);
            },
            Event::Reaction { message, user, emoji, added, .. } => {
                if host.eq(host.bot_user(), *user) {
                    return Ok(());
                }
                self.react(host, *user, *message, emoji.as_str(), *added);
            },
            _ => {},
        }
        Ok(())
    }
}

} // verus!
