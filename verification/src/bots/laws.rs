//! What the bots do, in terms of what is said and done.
use vstd::prelude::*;

use crate::bot::host::{queued, same_thing, up_to_date, Bot, HostModel, QueueModel};
use crate::bot::logger::log_text;
use crate::bot::refs::{ChannelRef, MessageRef, Ref, RegistryModel, RoleRef, UserRef};
use crate::bot::state::{hash_of, ManagedMsg};
use crate::bot::types::{log_of, ActionModel, Event, LogModel};
use crate::bots::echo::Echo;
use crate::bots::greeter::{
    bare_back, bare_front, has_greeting, is_greeting, word_len, Greeter,
};
use crate::bots::kippe::{
    after_reaction, after_seeds, after_upserts, managed_for, Kippe, ManagedMessage,
    ReactionRoleMapping,
};
use crate::bots::logger::Logger;
use crate::bots::sentinel::Sentinel;
use crate::bots::shibboleth::Shibboleth;
use crate::ext::{alphanumeric, lowercase, whitespace};
use crate::text::{decimal, trim, trim_front};

verus! {

/// References are the same thing exactly if they stand for the same ID; those
/// that stand for nothing are told apart by what they are.
pub proof fn law_same_thing<T: Ref>(a: T, b: T, m: RegistryModel)
    ensures
        a.meaning(m) is Some && b.meaning(m) is Some ==> (same_thing(a, b, m) <==> a.meaning(m)
            == b.meaning(m)),
        a.meaning(m) is None && b.meaning(m) is None ==> (same_thing(a, b, m) <==> a.raw_value()
            == b.raw_value()),
        a.meaning(m) is Some != b.meaning(m) is Some ==> !same_thing(a, b, m),
{
}

/// The mapping is for that message and emoji.
pub open spec fn maps(
    mapping: ReactionRoleMapping,
    message: MessageRef,
    emoji: Seq<char>,
    m: RegistryModel,
) -> bool {
    mapping.message.meaning(m) is Some && mapping.message.meaning(m) == message.meaning(m)
        && mapping.emoji@ == emoji
}

/// The role of a mapping, given to or taken from the user.
pub open spec fn role_change(user: UserRef, role: RoleRef, added: bool) -> ActionModel {
    if added {
        ActionModel::AddRole { user, role }
    } else {
        ActionModel::RemoveRole { user, role }
    }
}

proof fn lemma_reaction(
    queue: QueueModel,
    roles: Seq<ReactionRoleMapping>,
    user: UserRef,
    message: MessageRef,
    emoji: Seq<char>,
    added: bool,
    m: RegistryModel,
)
    requires
        queue.actions.len() + roles.len() <= 100,
        message.meaning(m) is Some,
    ensures
        ({
            let after = after_reaction(queue, roles, user, message, emoji, added, m);
            &&& after.dropped == queue.dropped
            &&& queue.actions.len() <= after.actions.len() <= queue.actions.len() + roles.len()
            &&& queue.actions =~= after.actions.take(queue.actions.len() as int)
            &&& forall|i: int|
                0 <= i < roles.len() && maps(#[trigger] roles[i], message, emoji, m)
                    ==> after.actions.skip(queue.actions.len() as int).contains(
                    role_change(user, roles[i].role, added),
                )
            &&& forall|k: int|
                queue.actions.len() <= k < after.actions.len() ==> exists|i: int|
                    0 <= i < roles.len() && maps(#[trigger] roles[i], message, emoji, m)
                        && #[trigger] after.actions[k] == role_change(user, roles[i].role, added)
        }),
    decreases roles.len(),
{
    let n = queue.actions.len() as int;
    let after = after_reaction(queue, roles, user, message, emoji, added, m);
    if roles.len() > 0 {
        let init = roles.drop_last();
        let before = after_reaction(queue, init, user, message, emoji, added, m);
        lemma_reaction(queue, init, user, message, emoji, added, m);
        let last = roles.last();
        let change = role_change(user, last.role, added);
        if maps(last, message, emoji, m) {
            assert(after.actions =~= before.actions.push(change));
            assert(after.actions.skip(n)[before.actions.len() - n] == change);
        } else {
            assert(after == before);
        }
        assert forall|i: int| 0 <= i < roles.len() && maps(
            #[trigger] roles[i],
            message,
            emoji,
            m,
        ) implies after.actions.skip(n).contains(role_change(user, roles[i].role, added)) by {
            if i < init.len() {
                assert(init[i] == roles[i]);
                let a = role_change(user, roles[i].role, added);
                let k = choose|k: int|
                    0 <= k < before.actions.skip(n).len() && before.actions.skip(n)[k] == a;
                assert(after.actions.skip(n)[k] == a);
            }
        }
        assert forall|k: int| n <= k < after.actions.len() implies exists|i: int|
            0 <= i < roles.len() && maps(#[trigger] roles[i], message, emoji, m)
                && #[trigger] after.actions[k] == role_change(user, roles[i].role, added) by {
            if k < before.actions.len() {
                assert(after.actions[k] == before.actions[k]);
                let i = choose|i: int|
                    0 <= i < init.len() && maps(#[trigger] init[i], message, emoji, m)
                        && before.actions[k] == role_change(user, init[i].role, added);
                assert(roles[i] == init[i]);
            } else {
                assert(roles[roles.len() - 1] == last);
                assert(after.actions[k] == change);
            }
        }
    }
}

/// Kippe gives a user the role of each mapping for a message and emoji when the
/// user adds that reaction, and takes it when the user removes it, whether or
/// not the bot added the reaction, too.  Other mappings do nothing.
pub proof fn law_reaction_roles(
    kippe: Kippe,
    user: UserRef,
    channel: ChannelRef,
    message: MessageRef,
    emoji: String,
    added: bool,
    before: HostModel,
    after: HostModel,
    r: Result<(), String>,
)
    requires
        kippe.responds(
            Event::Reaction { user, channel, message, emoji, added },
            before,
            after,
            r,
        ),
        message.meaning(before.names) is Some,
        user.meaning(before.names) is Some,
        user.meaning(before.names) != before.user.meaning(before.names),
        before.queue.actions.len() + kippe.reaction_roles@.len() <= 100,
    ensures
        r is Ok,
        ({
            let n = before.queue.actions.len() as int;
            let new = after.queue.actions.skip(n);
            let roles = kippe.reaction_roles@;
            &&& after.queue.actions.take(n) == before.queue.actions
            &&& forall|i: int|
                0 <= i < roles.len() && (#[trigger] roles[i]).message.meaning(before.names)
                    == message.meaning(before.names) && roles[i].emoji@ == emoji@ ==> {
                    &&& added ==> new.contains(ActionModel::AddRole { user, role: roles[i].role })
                    &&& !added ==> new.contains(
                        ActionModel::RemoveRole { user, role: roles[i].role },
                    )
                }
            &&& forall|k: int|
                0 <= k < new.len() ==> exists|i: int|
                    0 <= i < roles.len() && (#[trigger] roles[i]).message.meaning(before.names)
                        == message.meaning(before.names) && roles[i].emoji@ == emoji@
                        && #[trigger] new[k] == (if added {
                        ActionModel::AddRole { user, role: roles[i].role }
                    } else {
                        ActionModel::RemoveRole { user, role: roles[i].role }
                    })
        }),
{
    let roles = kippe.reaction_roles@;
    let n = before.queue.actions.len() as int;
    lemma_reaction(before.queue, roles, user, message, emoji@, added, before.names);
    let new = after.queue.actions.skip(n);
    assert forall|i: int|
        0 <= i < roles.len() && (#[trigger] roles[i]).message.meaning(before.names)
            == message.meaning(before.names) && roles[i].emoji@ == emoji@ implies new.contains(
        role_change(user, roles[i].role, added),
    ) by {
        assert(maps(roles[i], message, emoji@, before.names));
    }
    assert forall|k: int| 0 <= k < new.len() implies exists|i: int|
        0 <= i < roles.len() && (#[trigger] roles[i]).message.meaning(before.names)
            == message.meaning(before.names) && roles[i].emoji@ == emoji@ && #[trigger] new[k]
            == role_change(user, roles[i].role, added) by {
        assert(new[k] == after.queue.actions[n + k]);
        let i = choose|i: int|
            0 <= i < roles.len() && maps(#[trigger] roles[i], message, emoji@, before.names)
                && after.queue.actions[n + k] == role_change(user, roles[i].role, added);
        assert(roles[i].emoji@ == emoji@);
    }
}

/// Kippe does not follow its own reactions, and asks for nothing on messages.
pub proof fn law_kippe_keeps_still(
    kippe: Kippe,
    event: Event,
    before: HostModel,
    after: HostModel,
    r: Result<(), String>,
)
    requires
        kippe.responds(event, before, after, r),
        event matches Event::Reaction { user, .. } ==> user.meaning(before.names) is Some
            && user.meaning(before.names) == before.user.meaning(before.names),
        !(event is Started),
    ensures
        after.queue == before.queue,
{
}

/// A managed message is up to date exactly if it is known, with the same
/// content, in the same channel.
pub proof fn law_up_to_date(
    message: MessageRef,
    channel: ChannelRef,
    content: Seq<char>,
    m: RegistryModel,
    managed: Map<Seq<char>, ManagedMsg>,
    name: Seq<char>,
)
    requires
        m.message_name(message.raw_value()) == Some(name),
    ensures
        up_to_date(message, channel, content, m, managed) <==> {
            &&& managed.dom().contains(name)
            &&& managed[name].content_hash == hash_of(content)
            &&& channel.meaning(m) == Some(managed[name].channel_id)
        },
{
}

proof fn lemma_upserts(
    queue: QueueModel,
    messages: Seq<ManagedMessage>,
    m: RegistryModel,
    known: Map<Seq<char>, ManagedMsg>,
)
    requires
        queue.actions.len() + messages.len() <= 100,
    ensures
        ({
            let after = after_upserts(queue, messages, m, known);
            &&& queue.actions.len() <= after.actions.len() <= queue.actions.len() + messages.len()
            &&& forall|i: int|
                0 <= i < messages.len() && !up_to_date(
                    (#[trigger] messages[i]).message,
                    messages[i].channel,
                    messages[i].content@,
                    m,
                    known,
                ) ==> after.actions.contains(
                    ActionModel::UpsertMessage {
                        message: messages[i].message,
                        channel: messages[i].channel,
                        content: messages[i].content@,
                    },
                )
            &&& forall|k: int|
                queue.actions.len() <= k < after.actions.len() ==> exists|i: int|
                    0 <= i < messages.len() && !up_to_date(
                        (#[trigger] messages[i]).message,
                        messages[i].channel,
                        messages[i].content@,
                        m,
                        known,
                    ) && #[trigger] after.actions[k] == (ActionModel::UpsertMessage {
                        message: messages[i].message,
                        channel: messages[i].channel,
                        content: messages[i].content@,
                    })
        }),
    decreases messages.len(),
{
    let after = after_upserts(queue, messages, m, known);
    if messages.len() > 0 {
        let init = messages.drop_last();
        let before = after_upserts(queue, init, m, known);
        lemma_upserts(queue, init, m, known);
        let last = messages.last();
        let action = ActionModel::UpsertMessage {
            message: last.message,
            channel: last.channel,
            content: last.content@,
        };
        if up_to_date(last.message, last.channel, last.content@, m, known) {
            assert(after == before);
        } else {
            assert(after.actions =~= before.actions.push(action));
            assert(after.actions[before.actions.len() as int] == action);
        }
        assert forall|i: int|
            0 <= i < messages.len() && !up_to_date(
                (#[trigger] messages[i]).message,
                messages[i].channel,
                messages[i].content@,
                m,
                known,
            ) implies after.actions.contains(
            ActionModel::UpsertMessage {
                message: messages[i].message,
                channel: messages[i].channel,
                content: messages[i].content@,
            },
        ) by {
            if i < init.len() {
                assert(init[i] == messages[i]);
                let a = ActionModel::UpsertMessage {
                    message: messages[i].message,
                    channel: messages[i].channel,
                    content: messages[i].content@,
                };
                let k = choose|k: int| 0 <= k < before.actions.len() && before.actions[k] == a;
                assert(after.actions[k] == a);
            }
        }
        assert forall|k: int| queue.actions.len() <= k < after.actions.len() implies exists|
            i: int,
        |
            0 <= i < messages.len() && !up_to_date(
                (#[trigger] messages[i]).message,
                messages[i].channel,
                messages[i].content@,
                m,
                known,
            ) && #[trigger] after.actions[k] == (ActionModel::UpsertMessage {
                message: messages[i].message,
                channel: messages[i].channel,
                content: messages[i].content@,
            }) by {
            if k < before.actions.len() {
                assert(after.actions[k] == before.actions[k]);
                let i = choose|i: int|
                    0 <= i < init.len() && !up_to_date(
                        (#[trigger] init[i]).message,
                        init[i].channel,
                        init[i].content@,
                        m,
                        known,
                    ) && before.actions[k] == (ActionModel::UpsertMessage {
                        message: init[i].message,
                        channel: init[i].channel,
                        content: init[i].content@,
                    });
                assert(messages[i] == init[i]);
            } else {
                assert(messages[messages.len() - 1] == last);
                assert(after.actions[k] == action);
            }
        }
    }
}

proof fn lemma_managed_for(
    messages: Seq<ManagedMessage>,
    message: MessageRef,
    m: RegistryModel,
    from: int,
    i: int,
)
    requires
        0 <= from <= i < messages.len(),
        message.meaning(m) is Some,
        messages[i].message.meaning(m) == message.meaning(m),
    ensures
        managed_for(messages, message, m, from) matches Some(k) && from <= k <= i
            && messages[k].message.meaning(m) == message.meaning(m),
    decreases messages.len() - from,
{
    if from < i && !same_thing(messages[from].message, message, m) {
        lemma_managed_for(messages, message, m, from + 1, i);
    }
}

proof fn lemma_seeds(
    queue: QueueModel,
    roles: Seq<ReactionRoleMapping>,
    messages: Seq<ManagedMessage>,
    m: RegistryModel,
)
    requires
        queue.actions.len() + roles.len() <= 100,
    ensures
        ({
            let after = after_seeds(queue, roles, messages, m);
            &&& queue.actions.len() <= after.actions.len() <= queue.actions.len() + roles.len()
            &&& forall|a: ActionModel|
                queue.actions.contains(a) ==> #[trigger] after.actions.contains(a)
            &&& forall|k: int|
                0 <= k < queue.actions.len() ==> #[trigger] after.actions[k] == queue.actions[k]
            &&& forall|k: int|
                queue.actions.len() <= k < after.actions.len() ==> (
                #[trigger] after.actions[k]) is AddReaction
            &&& forall|i: int|
                0 <= i < roles.len() && (#[trigger] roles[i]).seed_reaction && managed_for(
                    messages,
                    roles[i].message,
                    m,
                    0,
                ) is Some ==> after.actions.contains(
                    ActionModel::AddReaction {
                        channel: messages[managed_for(messages, roles[i].message, m, 0)->0].channel,
                        message: roles[i].message,
                        emoji: roles[i].emoji@,
                    },
                )
        }),
    decreases roles.len(),
{
    let after = after_seeds(queue, roles, messages, m);
    if roles.len() > 0 {
        let init = roles.drop_last();
        let before = after_seeds(queue, init, messages, m);
        lemma_seeds(queue, init, messages, m);
        let last = roles.last();
        let at = managed_for(messages, last.message, m, 0);
        if last.seed_reaction && at is Some {
            let action = ActionModel::AddReaction {
                channel: messages[at->0].channel,
                message: last.message,
                emoji: last.emoji@,
            };
            assert(after.actions =~= before.actions.push(action));
            assert(after.actions[before.actions.len() as int] == action);
        } else {
            assert(after == before);
        }
        assert forall|a: ActionModel| before.actions.contains(a) implies after.actions.contains(
            a,
        ) by {
            let k = choose|k: int| 0 <= k < before.actions.len() && before.actions[k] == a;
            assert(after.actions[k] == a);
        }
        assert forall|i: int|
            0 <= i < roles.len() && (#[trigger] roles[i]).seed_reaction && managed_for(
                messages,
                roles[i].message,
                m,
                0,
            ) is Some implies after.actions.contains(
            ActionModel::AddReaction {
                channel: messages[managed_for(messages, roles[i].message, m, 0)->0].channel,
                message: roles[i].message,
                emoji: roles[i].emoji@,
            },
        ) by {
            if i < init.len() {
                assert(init[i] == roles[i]);
            }
        }
    }
}

/// When Kippe starts, every managed message that is not known, or has another
/// content or channel, is asked to be brought up to date; and the reactions
/// that the bot is to add itself are asked for, in the managed message's
/// channel.
pub proof fn law_kippe_starts(
    kippe: Kippe,
    before: HostModel,
    after: HostModel,
    r: Result<(), String>,
    i: int,
    k: int,
)
    requires
        kippe.responds(Event::Started, before, after, r),
        before.queue.actions.len() + kippe.managed_messages@.len() + kippe.reaction_roles@.len()
            <= 100,
        0 <= i < kippe.managed_messages@.len(),
    ensures
        ({
            let mm = kippe.managed_messages@[i];
            &&& before.names.message_name(mm.message.raw_value()) is None
                ==> after.queue.actions.contains(
                ActionModel::UpsertMessage {
                    message: mm.message,
                    channel: mm.channel,
                    content: mm.content@,
                },
            )
            &&& before.names.message_name(mm.message.raw_value()) matches Some(name) ==> {
                &&& !before.known.dom().contains(name) || before.known[name].content_hash
                    != hash_of(mm.content@) || mm.channel.meaning(before.names) != Some(
                    before.known[name].channel_id,
                ) ==> after.queue.actions.contains(
                    ActionModel::UpsertMessage {
                        message: mm.message,
                        channel: mm.channel,
                        content: mm.content@,
                    },
                )
            }
        }),
        ({
            let mm = kippe.managed_messages@[i];
            let role = kippe.reaction_roles@[k];
            // No other managed message is the same one.
            0 <= k < kippe.reaction_roles@.len() && role.seed_reaction && role.message.meaning(
                before.names,
            ) is Some && mm.message.meaning(before.names) == role.message.meaning(before.names) && (
            forall|j: int|
                0 <= j < kippe.managed_messages@.len() && j != i ==> (
                #[trigger] kippe.managed_messages@[j]).message.meaning(before.names)
                    != mm.message.meaning(before.names)) ==> after.queue.actions.contains(
                ActionModel::AddReaction {
                    channel: mm.channel,
                    message: role.message,
                    emoji: role.emoji@,
                },
            )
        }),
        // What is up to date is not asked for.
        forall|x: int|
            before.queue.actions.len() <= x < after.queue.actions.len() && (
            #[trigger] after.queue.actions[x]) is UpsertMessage ==> exists|j: int|
                0 <= j < kippe.managed_messages@.len() && !up_to_date(
                    (#[trigger] kippe.managed_messages@[j]).message,
                    kippe.managed_messages@[j].channel,
                    kippe.managed_messages@[j].content@,
                    before.names,
                    before.known,
                ) && after.queue.actions[x] == (ActionModel::UpsertMessage {
                    message: kippe.managed_messages@[j].message,
                    channel: kippe.managed_messages@[j].channel,
                    content: kippe.managed_messages@[j].content@,
                }),
        // Nothing but managed messages and reactions is asked for.
        forall|x: int|
            before.queue.actions.len() <= x < after.queue.actions.len() ==> (
            #[trigger] after.queue.actions[x]) is UpsertMessage
                || after.queue.actions[x] is AddReaction,
{
    let messages = kippe.managed_messages@;
    let roles = kippe.reaction_roles@;
    let mid = after_upserts(before.queue, messages, before.names, before.known);
    lemma_upserts(before.queue, messages, before.names, before.known);
    lemma_seeds(mid, roles, messages, before.names);
    assert forall|x: int|
        before.queue.actions.len() <= x < after.queue.actions.len() && (
        #[trigger] after.queue.actions[x]) is UpsertMessage implies exists|j: int|
        0 <= j < messages.len() && !up_to_date(
            (#[trigger] messages[j]).message,
            messages[j].channel,
            messages[j].content@,
            before.names,
            before.known,
        ) && after.queue.actions[x] == (ActionModel::UpsertMessage {
            message: messages[j].message,
            channel: messages[j].channel,
            content: messages[j].content@,
        }) by {
        assert(x < mid.actions.len());
        assert(after.queue.actions[x] == mid.actions[x]);
    }
    if 0 <= k < roles.len() && roles[k].message.meaning(before.names) is Some
        && messages[i].message.meaning(before.names) == roles[k].message.meaning(before.names) {
        lemma_managed_for(messages, roles[k].message, before.names, 0, i);
    }
}

/// Echo repeats what others say, in the same channel; nothing else makes it
/// speak, least of all itself.
pub proof fn law_echo(
    echo: Echo,
    message_id: MessageRef,
    channel: ChannelRef,
    author: UserRef,
    author_name: String,
    content: String,
    before: HostModel,
    after: HostModel,
    r: Result<(), String>,
)
    requires
        echo.responds(
            Event::MessageCreate { message_id, channel, author, author_name, content },
            before,
            after,
            r,
        ),
        before.queue.actions.len() < 100,
        author.meaning(before.names) is Some,
    ensures
        ({
            let own = author.meaning(before.names) == before.user.meaning(before.names);
            &&& !own && content@.len() > 0 ==> after.queue.actions == before.queue.actions.push(
                ActionModel::SendMessage { channel, content: content@ },
            )
            &&& own || content@.len() == 0 ==> after.queue == before.queue
        }),
        after.logged == before.logged,
{
}

/// Whoever says the passphrase, with nothing but whitespace around it, gets the
/// role; nobody else does.
pub proof fn law_shibboleth(
    bot: Shibboleth,
    message_id: MessageRef,
    channel: ChannelRef,
    author: UserRef,
    author_name: String,
    content: String,
    before: HostModel,
    after: HostModel,
    r: Result<(), String>,
)
    requires
        bot.responds(
            Event::MessageCreate { message_id, channel, author, author_name, content },
            before,
            after,
            r,
        ),
        before.queue.actions.len() < 100,
        author.meaning(before.names) is Some,
    ensures
        ({
            let own = author.meaning(before.names) == before.user.meaning(before.names);
            &&& !own && trim(content@) == bot.passphrase@ ==> after.queue.actions
                == before.queue.actions.push(
                ActionModel::AddRole { user: author, role: bot.role },
            )
            &&& own || trim(content@) != bot.passphrase@ ==> after.queue == before.queue
        }),
{
}

/// Deletions and edits in the watched channel are reported to the other one,
/// with the message and, for an edit, what it says now; others are not.
pub proof fn law_sentinel(
    bot: Sentinel,
    message: MessageRef,
    channel: ChannelRef,
    content: String,
    before: HostModel,
    deleted: HostModel,
    edited: HostModel,
    r: Result<(), String>,
)
    requires
        bot.responds(Event::MessageDelete { message, channel }, before, deleted, r),
        bot.responds(
            Event::MessageUpdate { message, channel, content: Some(content) },
            before,
            edited,
            r,
        ),
        before.queue.actions.len() < 100,
        channel.meaning(before.names) is Some,
    ensures
        channel.meaning(before.names) == bot.watched_cn.meaning(before.names) ==> {
            &&& deleted.queue.actions == before.queue.actions.push(
                ActionModel::SendMessage {
                    channel: bot.alert_ch,
                    content: "Message MessageRef("@ + decimal(message.raw_value() as nat)
                        + ") was deleted in "@ + "ChannelRef("@ + decimal(
                        channel.raw_value() as nat,
                    ) + ")"@,
                },
            )
            &&& edited.queue.actions == before.queue.actions.push(
                ActionModel::SendMessage {
                    channel: bot.alert_ch,
                    content: "Message MessageRef("@ + decimal(message.raw_value() as nat)
                        + ") edited in "@ + "ChannelRef("@ + decimal(channel.raw_value() as nat)
                        + ")"@ + ": "@ + content@,
                },
            )
        },
        channel.meaning(before.names) != bot.watched_cn.meaning(before.names) ==> deleted.queue
            == before.queue && edited.queue == before.queue,
{
}

/// Whoever greets is greeted by name, in the same channel; the bot does not
/// greet itself.
pub proof fn law_greeter(
    bot: Greeter,
    message_id: MessageRef,
    channel: ChannelRef,
    author: UserRef,
    author_name: String,
    content: String,
    before: HostModel,
    after: HostModel,
    r: Result<(), String>,
)
    requires
        bot.responds(
            Event::MessageCreate { message_id, channel, author, author_name, content },
            before,
            after,
            r,
        ),
        before.queue.actions.len() < 100,
        author.meaning(before.names) is Some,
    ensures
        ({
            let own = author.meaning(before.names) == before.user.meaning(before.names);
            &&& !own && has_greeting(content@) ==> after.queue.actions
                == before.queue.actions.push(
                ActionModel::SendMessage {
                    channel,
                    content: "Hey there, "@ + author_name@ + "!"@,
                },
            )
            &&& own || !has_greeting(content@) ==> after.queue == before.queue
        }),
{
}

/// A handler that asks for too much is cut short at a hundred actions: what came
/// first stays, and what is beyond is counted.
pub proof fn law_queue_is_limited(queue: QueueModel, action: ActionModel)
    requires
        queue.actions.len() <= 100,
        queue.dropped < u64::MAX,
    ensures
        ({
            let after = queued(queue, action);
            &&& queue.actions.len() < 100 ==> after.actions == queue.actions.push(action)
                && after.dropped == queue.dropped
            &&& queue.actions.len() == 100 ==> after.actions == queue.actions && after.dropped
                == queue.dropped + 1
        }),
{
}

proof fn lemma_word_at_front(word: Seq<char>, back: Seq<char>)
    requires
        forall|i: int| 0 <= i < word.len() ==> !whitespace(#[trigger] word[i]),
        back.len() > 0 ==> whitespace(back[0]),
    ensures
        word_len(word + back) == word.len(),
    decreases word.len(),
{
    let s = word + back;
    if word.len() == 0 {
        assert(s =~= back);
    } else {
        assert(s[0] == word[0]);
        assert(s.skip(1) =~= word.skip(1) + back);
        assert forall|i: int| 0 <= i < word.skip(1).len() implies !whitespace(
            #[trigger] word.skip(1)[i],
        ) by {
            assert(word.skip(1)[i] == word[i + 1]);
        }
        lemma_word_at_front(word.skip(1), back);
    }
}

proof fn lemma_greeting_behind(front: Seq<char>, rest: Seq<char>)
    requires
        front.len() > 0 ==> whitespace(front.last()),
        has_greeting(rest),
    ensures
        has_greeting(front + rest),
    decreases front.len(),
{
    let s = front + rest;
    if front.len() == 0 {
        assert(s =~= rest);
    } else if whitespace(front[0]) {
        assert(s[0] == front[0]);
        assert(s.skip(1) =~= front.skip(1) + rest);
        if front.len() > 1 {
            assert(front.skip(1).last() == front.last());
        }
        lemma_greeting_behind(front.skip(1), rest);
        assert(trim_front(s) == trim_front(s.skip(1)));
    } else {
        let n = word_len(front) as int;
        lemma_word_len_of(front);
        let word = front.take(n);
        assert forall|i: int| 0 <= i < word.len() implies !whitespace(#[trigger] word[i]) by {
            assert(word[i] == front[i]);
        }
        assert(n < front.len()) by {
            if n == front.len() {
                assert(!whitespace(front[n - 1]));
            }
        }
        let back = front.skip(n);
        assert(whitespace(back[0]));
        assert(s =~= word + (back + rest));
        lemma_word_at_front(word, back + rest);
        assert(back.last() == front.last());
        assert(s.skip(n) =~= back + rest);
        lemma_greeting_behind(back, rest);
        assert(s[0] == front[0]);
        assert(trim_front(s) == s);
    }
}

proof fn lemma_word_len_of(s: Seq<char>)
    ensures
        word_len(s) <= s.len(),
        forall|i: int| 0 <= i < word_len(s) ==> !whitespace(#[trigger] s[i]),
        word_len(s) < s.len() ==> whitespace(s[word_len(s) as int]),
        s.len() > 0 && !whitespace(s[0]) ==> word_len(s) > 0,
    decreases s.len(),
{
    if s.len() > 0 && !whitespace(s[0]) {
        lemma_word_len_of(s.skip(1));
        assert forall|i: int| 0 <= i < word_len(s) implies !whitespace(#[trigger] s[i]) by {
            if i > 0 {
                assert(s[i] == s.skip(1)[i - 1]);
            }
        }
    }
}

/// A greeting is heard wherever it stands as a word, whatever is around it: one
/// that is `hello`, `hi` or `hey` in lower case, without what is neither letter
/// nor digit at its ends.
pub proof fn law_greeting_is_heard(
    front: Seq<char>,
    quote: Seq<char>,
    word: Seq<char>,
    mark: Seq<char>,
    back: Seq<char>,
)
    requires
        front.len() > 0 ==> whitespace(front.last()),
        back.len() > 0 ==> whitespace(back[0]),
        forall|i: int| 0 <= i < word.len() ==> !whitespace(#[trigger] word[i]),
        forall|i: int|
            0 <= i < quote.len() ==> !whitespace(#[trigger] quote[i]) && !alphanumeric(quote[i]),
        forall|i: int|
            0 <= i < mark.len() ==> !whitespace(#[trigger] mark[i]) && !alphanumeric(mark[i]),
        word.len() > 0,
        alphanumeric(word[0]),
        alphanumeric(word.last()),
        lowercase(word) == "hello"@ || lowercase(word) == "hi"@ || lowercase(word) == "hey"@,
    ensures
        has_greeting(front + (quote + word + mark) + back),
{
    let whole = quote + word + mark;
    assert forall|i: int| 0 <= i < whole.len() implies !whitespace(#[trigger] whole[i]) by {
        if i < quote.len() {
            assert(whole[i] == quote[i]);
        } else if i < quote.len() + word.len() {
            assert(whole[i] == word[i - quote.len()]);
        } else {
            assert(whole[i] == mark[i - quote.len() - word.len()]);
        }
    }
    let rest = whole + back;
    lemma_word_at_front(whole, back);
    assert(rest.take(whole.len() as int) =~= whole);
    assert(rest[0] == whole[0]);
    assert(trim_front(rest) == rest);
    lemma_bare_front(quote, word + mark);
    assert(quote + (word + mark) =~= whole);
    lemma_bare_back(word, mark);
    assert(is_greeting(whole));
    assert(has_greeting(rest));
    lemma_greeting_behind(front, rest);
    assert(front + rest =~= front + whole + back);
}

proof fn lemma_bare_front(quote: Seq<char>, rest: Seq<char>)
    requires
        forall|i: int| 0 <= i < quote.len() ==> !alphanumeric(#[trigger] quote[i]),
        rest.len() > 0,
        alphanumeric(rest[0]),
    ensures
        bare_front(quote + rest) == rest,
    decreases quote.len(),
{
    if quote.len() == 0 {
        assert(quote + rest =~= rest);
    } else {
        assert((quote + rest)[0] == quote[0]);
        assert((quote + rest).skip(1) =~= quote.skip(1) + rest);
        assert forall|i: int| 0 <= i < quote.skip(1).len() implies !alphanumeric(
            #[trigger] quote.skip(1)[i],
        ) by {
            assert(quote.skip(1)[i] == quote[i + 1]);
        }
        lemma_bare_front(quote.skip(1), rest);
    }
}

proof fn lemma_bare_back(word: Seq<char>, mark: Seq<char>)
    requires
        forall|i: int| 0 <= i < mark.len() ==> !alphanumeric(#[trigger] mark[i]),
        word.len() > 0,
        alphanumeric(word.last()),
    ensures
        bare_back(word + mark) == word,
    decreases mark.len(),
{
    if mark.len() == 0 {
        assert(word + mark =~= word);
    } else {
        assert((word + mark).last() == mark[mark.len() - 1]);
        assert((word + mark).drop_last() =~= word + mark.drop_last());
        assert forall|i: int| 0 <= i < mark.drop_last().len() implies !alphanumeric(
            #[trigger] mark.drop_last()[i],
        ) by {
            assert(mark.drop_last()[i] == mark[i]);
        }
        lemma_bare_back(word, mark.drop_last());
    }
}

/// What is one word and no greeting is none, nor is silence.
pub proof fn law_no_greeting(word: Seq<char>)
    requires
        forall|i: int| 0 <= i < word.len() ==> !whitespace(#[trigger] word[i]),
        word.len() > 0 ==> {
            let w = lowercase(bare_back(bare_front(word)));
            w != "hello"@ && w != "hi"@ && w != "hey"@
        },
    ensures
        !has_greeting(word),
{
    let none = Seq::<char>::empty();
    if word.len() > 0 {
        assert(trim_front(word) == word);
        lemma_word_at_front(word, none);
        assert(word + none =~= word);
        assert(word.take(word.len() as int) =~= word);
        assert(word.skip(word.len() as int) =~= none);
        assert(trim_front(none) == none);
        assert(!has_greeting(none));
    }
}

/// The logger logs what happens and asks for nothing; Kippe logs, too.
pub proof fn law_events_are_logged(
    bot: Logger,
    kippe: Kippe,
    event: Event,
    before: HostModel,
    after: HostModel,
    r: Result<(), String>,
    other: HostModel,
    entry: LogModel,
)
    requires
        bot.responds(event, before, after, r),
        kippe.responds(event, before, other, r),
        before.logged is Some,
        log_of(event, before.names) == Some(entry),
    ensures
        after.queue == before.queue,
        after.logged == Some(before.logged->0.push(log_text(entry))),
        other.logged == after.logged,
{
}

/// Bots that answer messages do nothing about anything else.
pub proof fn law_bots_keep_still(
    echo: Echo,
    greeter: Greeter,
    shibboleth: Shibboleth,
    sentinel: Sentinel,
    event: Event,
    before: HostModel,
    a: HostModel,
    b: HostModel,
    c: HostModel,
    d: HostModel,
    r: Result<(), String>,
)
    requires
        echo.responds(event, before, a, r),
        greeter.responds(event, before, b, r),
        shibboleth.responds(event, before, c, r),
        sentinel.responds(event, before, d, r),
    ensures
        r is Ok,
        !(event is MessageCreate) ==> a.queue == before.queue && b.queue == before.queue && c.queue
            == before.queue,
        event is Started || event is Reaction || event is MessageCreate ==> d.queue == before.queue,
        event matches Event::MessageUpdate { content, .. } ==> (content is None ==> d.queue
            == before.queue),
{
}

} // verus!
