//! What a bot can ask for and rely on.
use vstd::prelude::*;

use crate::bot::config_laws::{law_unique_name_is_found, lemma_none_named, lemma_one_named};
use crate::bot::host::Host;
use crate::bot::logger::log_text;
use crate::bot::refs::{
    law_direct_reference, law_names_are_registered_once, ChannelRef, MessageRef, Ref, RefError, RefRegistry, RegistryModel,
    RoleRef, UserRef, DIRECT_BIT,
};
use crate::bot::runner::{ambiguous, law_seeding_keeps_what_is_known, Follow, Runner};
use crate::bot::sessions::{Execution, ExecutionEvent, ExecutionStep};
use crate::bot::state::{hash_of, ManagedMsg};
use crate::bot::tracker::{
    channels_after, count_named, roles_after, ChannelRoleTracker, Lookup, NameTracker, Seen,
};
use crate::bot::types::{log_of, models, Action, ActionModel, Event, LogModel};
use crate::bots::echo::Echo;
use crate::discord::error::Error;
use crate::discord::http::Method;
use crate::discord::message::{Channel, Role};
use crate::text::{decimal, law_decimal_round_trip, texts};

verus! {

/// What a bot asks for is what is queued, behind what it asked for before.
pub proof fn law_requests_are_queued<'a>(
    a: &mut Host<'a>,
    b: &mut Host<'a>,
    c: &mut Host<'a>,
    d: &mut Host<'a>,
    e: &mut Host<'a>,
    channel: ChannelRef,
    message: MessageRef,
    user: UserRef,
    role: RoleRef,
    text: &str,
)
    requires
        call_ensures(Host::send_message, (a, channel, text), ()),
        call_ensures(Host::edit_message, (b, channel, message, text), ()),
        call_ensures(Host::add_role, (c, user, role), ()),
        call_ensures(Host::remove_role, (d, user, role), ()),
        call_ensures(Host::add_reaction, (e, channel, message, text), ()),
    ensures
        old(a).queue().actions.len() < 100 ==> final(a).queue().actions == old(
            a,
        ).queue().actions.push(ActionModel::SendMessage { channel, content: text@ }),
        old(b).queue().actions.len() < 100 ==> final(b).queue().actions == old(
            b,
        ).queue().actions.push(ActionModel::EditMessage { channel, message, content: text@ }),
        old(c).queue().actions.len() < 100 ==> final(c).queue().actions == old(
            c,
        ).queue().actions.push(ActionModel::AddRole { user, role }),
        old(d).queue().actions.len() < 100 ==> final(d).queue().actions == old(
            d,
        ).queue().actions.push(ActionModel::RemoveRole { user, role }),
        old(e).queue().actions.len() < 100 ==> final(e).queue().actions == old(
            e,
        ).queue().actions.push(ActionModel::AddReaction { channel, message, emoji: text@ }),
        old(a).queue().actions.len() >= 100 ==> final(a).queue().actions == old(a).queue().actions,
        final(a).logged() == old(a).logged(),
{
}

/// A managed message is asked for unless it is known with the same content in
/// the same channel.
pub proof fn law_upsert_is_queued<'a>(
    host: &mut Host<'a>,
    message: MessageRef,
    channel: ChannelRef,
    content: &str,
    name: Seq<char>,
)
    requires
        call_ensures(Host::upsert_message, (host, message, channel, content), ()),
        old(host).names().message_name(message.raw_value()) == Some(name),
        old(host).queue().actions.len() < 100,
    ensures
        ({
            let known = old(host).known();
            let same = known.dom().contains(name) && known[name].content_hash == hash_of(content@)
                && channel.meaning(old(host).names()) == Some(known[name].channel_id);
            &&& same ==> final(host).queue() == old(host).queue()
            &&& !same ==> final(host).queue().actions == old(host).queue().actions.push(
                ActionModel::UpsertMessage { message, channel, content: content@ },
            )
        }),
{
}

/// What a bot asks for while it handles an event is what is carried out: here
/// what the simplest bot says.
pub proof fn law_handled_event_gives_actions(
    runner: &Runner,
    bot: &Echo,
    message_id: MessageRef,
    channel: ChannelRef,
    author: UserRef,
    author_name: String,
    content: String,
    bot_user_id: u64,
    r: (Result<Vec<Action>, (String, usize)>, Vec<String>, u64),
)
    requires
        call_ensures(
            Runner::handle::<Echo>,
            (
                runner,
                bot,
                &Event::MessageCreate { message_id, channel, author, author_name, content },
                bot_user_id,
            ),
            r,
        ),
        author.meaning(runner.registry.model()) is Some,
        author.meaning(runner.registry.model()) != UserRef::direct(bot_user_id).meaning(
            runner.registry.model(),
        ),
        content@.len() > 0,
    ensures
        r.0 matches Ok(actions) && models(actions@) =~= seq![
            ActionModel::SendMessage { channel, content: content@ },
        ],
        r.1@.len() == 0,
        r.2 == 0,
{
    assert(texts(r.1@).len() == r.1@.len());
}

/// Actions are carried out in order: the next one that can be is the next
/// request, and the answer to one comes before the next.
pub proof fn law_actions_in_order(
    runner: &mut Runner,
    execution: &mut Execution,
    r: ExecutionStep,
    channel_id: u64,
    user_id: u64,
    role_id: u64,
)
    requires
        call_ensures(Runner::execute_actions, (runner, execution, ExecutionEvent::Begin), r),
        old(execution).wf(),
    ensures
        final(execution).actions() == old(execution).actions(),
        *final(runner) == *old(runner),
        r.finished == Ok::<bool, Error>(false),
        old(execution).done() == old(execution).actions().len() ==> r.call is None
            && r.skipped@.len() == 0,
        old(execution).done() < old(execution).actions().len() ==> {
            let action = old(execution).actions()[old(execution).done()]@;
            let m = old(runner).registry.model();
            &&& action matches ActionModel::SendMessage { channel, content } ==> (channel.meaning(m)
                == Some(channel_id) ==> {
                &&& r.call matches Some((request, follow))
                &&& request.method == Method::Post
                &&& request.path@ == "/api/v10/channels/"@ + decimal(channel_id as nat)
                    + "/messages"@
                &&& r.skipped@.len() == 0
                &&& final(execution).done() == old(execution).done() + 1
            })
            &&& action matches ActionModel::AddRole { user, role } ==> (user.meaning(m) == Some(
                user_id,
            ) && role.meaning(m) == Some(role_id) ==> {
                &&& r.call matches Some((request, follow))
                &&& request.method == Method::Put
                &&& request.path@ == "/api/v10/guilds/"@ + decimal(old(runner).guild_id as nat)
                    + "/members/"@ + decimal(user_id as nat) + "/roles/"@ + decimal(role_id as nat)
                &&& r.skipped@.len() == 0
                &&& final(execution).done() == old(execution).done() + 1
            })
        },
        r.call is None ==> final(execution).done() == old(execution).actions().len(),
{
}

/// A stable name that one channel of the guild has, and of which nothing was
/// remembered, stands for that channel once the bot starts, and the state is
/// saved.
pub proof fn law_stable_names_are_found(
    runner: &mut Runner,
    changed: bool,
    channel: ChannelRef,
    i: int,
)
    requires
        call_ensures(Runner::start, (runner,), changed),
        ({
            let names = old(runner).registry.model().channels.names;
            let seen = old(runner).tracker.channels.seen();
            &&& channel.raw_value() < names.len()
            &&& channel.raw_value() & DIRECT_BIT == 0
            &&& 0 <= i < seen.len()
            &&& seen[i].name == names[channel.raw_value() as int]
            &&& seen[i].id != 0
            &&& !old(runner).state@.channels.dom().contains(seen[i].name)
            &&& forall|j: int|
                0 <= j < seen.len() && j != i ==> (#[trigger] seen[j]).name != seen[i].name
        }),
    ensures
        channel.meaning(final(runner).registry.model()) == Some(
            old(runner).tracker.channels.seen()[i].id,
        ),
        final(runner).state@.channels.dom().contains(old(runner).tracker.channels.seen()[i].name),
        changed,
        final(runner).state@.managed == old(runner).state@.managed,
{
    let names = old(runner).registry.model().channels.names;
    let seen = old(runner).tracker.channels.seen();
    let name = seen[i].name;
    assert(names[channel.raw_value() as int] == name);
    assert(names.contains(name));
    law_unique_name_is_found(old(runner).state@.channels, names, seen, name, i);
    assert(final(runner).state@.channels != old(runner).state@.channels);
}

/// A managed message's name stands for the message that was posted under it.
pub proof fn law_managed_names(
    m: RegistryModel,
    channels: Map<Seq<char>, u64>,
    roles: Map<Seq<char>, u64>,
    managed: Map<Seq<char>, ManagedMsg>,
    message: MessageRef,
)
    requires
        message.raw_value() < m.messages.names.len(),
        message.raw_value() & DIRECT_BIT == 0,
    ensures
        ({
            let name = m.messages.names[message.raw_value() as int];
            let after = m.normalized(channels, roles, managed);
            &&& after.message_name(message.raw_value()) == Some(name)
            &&& managed.dom().contains(name) && managed[name].message_id != 0 ==> message.meaning(
                after,
            ) == Some(managed[name].message_id)
            &&& !managed.dom().contains(name) ==> message.meaning(after) is None
        }),
{
}

/// A reference made from an ID stands for that ID, and one from the
/// configuration for what it says there.
pub proof fn law_references(
    id: u64,
    channel: ChannelRef,
    message: MessageRef,
    role: RoleRef,
    user: UserRef,
    m: RegistryModel,
)
    requires
        id < 0x8000_0000_0000_0000,
        call_ensures(ChannelRef::from_id, (id,), channel),
        call_ensures(MessageRef::from_id, (id,), message),
        call_ensures(RoleRef::from_id, (id,), role),
        call_ensures(UserRef::from_id, (id,), user),
    ensures
        channel.meaning(m) == Some(id),
        message.meaning(m) == Some(id),
        role.meaning(m) == Some(id),
        user.meaning(m) == Some(id),
        m.message_name(message.raw_value()) is None,
{
    law_direct_reference(id, m.channels);
    law_direct_reference(id, m.messages);
    law_direct_reference(id, m.roles);
    assert((id | 0x8000_0000_0000_0000u64) & 0x8000_0000_0000_0000u64 != 0) by (bit_vector);
}

/// A reference by ID in the configuration stands for the ID, and leaves the
/// names alone; what is neither an ID nor a name is refused.
pub proof fn law_configured_channel(
    s: &str,
    registry: &mut RefRegistry,
    r: Result<ChannelRef, RefError>,
    id: u64,
    m: RegistryModel,
)
    requires
        call_ensures(ChannelRef::from_config, (s, registry), r),
        s@ == "id:"@ + decimal(id as nat),
        id < 0x8000_0000_0000_0000,
    ensures
        r matches Ok(channel) && channel.meaning(m) == Some(id),
        final(registry).model() == old(registry).model(),
{
    reveal_strlit("id:");
    law_decimal_round_trip(id as nat, u64::MAX as nat);
    assert(s@.take(3) =~= "id:"@);
    assert(s@.skip(3) =~= decimal(id as nat));
    law_direct_reference(id, m.channels);
}

/// What a guild has is noted, under the names it has there.
pub proof fn law_guild_is_noted(
    tracker: &mut ChannelRoleTracker,
    channels: &[Channel],
    roles: &[Role],
    i: int,
    k: int,
)
    requires
        call_ensures(ChannelRoleTracker::load_guild, (tracker, channels, roles), ()),
        old(tracker).channels.seen().len() == 0,
        old(tracker).roles.seen().len() == 0,
        forall|a: int, b: int|
            0 <= a < b < channels@.len() ==> (#[trigger] channels@[a]).id != (
            #[trigger] channels@[b]).id,
        forall|a: int, b: int|
            0 <= a < b < roles@.len() ==> (#[trigger] roles@[a]).id != (#[trigger] roles@[b]).id,
    ensures
        final(tracker).channels.seen().len() == channels@.len(),
        final(tracker).roles.seen().len() == roles@.len(),
        0 <= i < channels@.len() ==> final(tracker).channels.seen()[i] == (Seen {
            id: channels@[i].id,
            name: channels@[i].name@,
        }),
        0 <= k < roles@.len() ==> final(tracker).roles.seen()[k] == (Seen {
            id: roles@[k].id,
            name: roles@[k].name@,
        }),
{
    assert(old(tracker).channels.seen() =~= Seq::<Seen>::empty());
    assert(old(tracker).roles.seen() =~= Seq::<Seen>::empty());
    lemma_channels_noted(channels@);
    lemma_roles_noted(roles@);
}

proof fn lemma_channels_noted(channels: Seq<Channel>)
    requires
        forall|a: int, b: int|
            0 <= a < b < channels.len() ==> (#[trigger] channels[a]).id != (
            #[trigger] channels[b]).id,
    ensures
        channels_after(Seq::empty(), channels).len() == channels.len(),
        forall|i: int|
            0 <= i < channels.len() ==> #[trigger] channels_after(Seq::empty(), channels)[i] == (
            Seen { id: channels[i].id, name: channels[i].name@ }),
    decreases channels.len(),
{
    if channels.len() > 0 {
        let init = channels.drop_last();
        assert forall|a: int, b: int| 0 <= a < b < init.len() implies (#[trigger] init[a]).id != (
        #[trigger] init[b]).id by {
            assert(channels[a].id != channels[b].id);
        }
        lemma_channels_noted(init);
        let seen = channels_after(Seq::empty(), init);
        assert forall|j: int| 0 <= j < seen.len() implies (#[trigger] seen[j]).id
            != channels.last().id by {
            assert(channels[j].id != channels[channels.len() - 1].id);
        }
        let after = channels_after(Seq::empty(), channels);
        assert forall|i: int| 0 <= i < channels.len() implies #[trigger] after[i] == (Seen {
            id: channels[i].id,
            name: channels[i].name@,
        }) by {
            if i < init.len() {
                assert(after[i] == seen[i]);
                assert(init[i] == channels[i]);
            }
        }
    }
}

proof fn lemma_roles_noted(roles: Seq<Role>)
    requires
        forall|a: int, b: int|
            0 <= a < b < roles.len() ==> (#[trigger] roles[a]).id != (#[trigger] roles[b]).id,
    ensures
        roles_after(Seq::empty(), roles).len() == roles.len(),
        forall|i: int|
            0 <= i < roles.len() ==> #[trigger] roles_after(Seq::empty(), roles)[i] == (Seen {
                id: roles[i].id,
                name: roles[i].name@,
            }),
    decreases roles.len(),
{
    if roles.len() > 0 {
        let init = roles.drop_last();
        assert forall|a: int, b: int| 0 <= a < b < init.len() implies (#[trigger] init[a]).id != (
        #[trigger] init[b]).id by {
            assert(roles[a].id != roles[b].id);
        }
        lemma_roles_noted(init);
        let seen = roles_after(Seq::empty(), init);
        assert forall|j: int| 0 <= j < seen.len() implies (#[trigger] seen[j]).id
            != roles.last().id by {
            assert(roles[j].id != roles[roles.len() - 1].id);
        }
        let after = roles_after(Seq::empty(), roles);
        assert forall|i: int| 0 <= i < roles.len() implies #[trigger] after[i] == (Seen {
            id: roles[i].id,
            name: roles[i].name@,
        }) by {
            if i < init.len() {
                assert(after[i] == seen[i]);
                assert(init[i] == roles[i]);
            }
        }
    }
}

/// An action is what it is called.
pub proof fn law_action_model(action: Action)
    ensures
        match action {
            Action::SendMessage { channel, content } => action@ == (ActionModel::SendMessage {
                channel,
                content: content@,
            }),
            Action::EditMessage { channel, message, content } => action@
                == (ActionModel::EditMessage { channel, message, content: content@ }),
            Action::AddRole { user, role } => action@ == (ActionModel::AddRole { user, role }),
            Action::RemoveRole { user, role } => action@ == (ActionModel::RemoveRole {
                user,
                role,
            }),
            Action::AddReaction { channel, message, emoji } => action@
                == (ActionModel::AddReaction { channel, message, emoji: emoji@ }),
            Action::UpsertMessage { message, channel, content } => action@
                == (ActionModel::UpsertMessage { message, channel, content: content@ }),
        },
{
}

/// A stable name that two channels of the guild have is told as ambiguous,
/// unless something is remembered of it; one that at most one has is not.
pub proof fn law_ambiguous_names_are_told(runner: &Runner, r: Vec<String>, n: int, i: int, j: int)
    requires
        call_ensures(Runner::ambiguous_channels, (runner,), r),
        0 <= n < runner.registry.model().channels.names.len(),
        0 <= i < j < runner.tracker.channels.seen().len(),
        runner.tracker.channels.seen()[i].name == runner.registry.model().channels.names[n],
        runner.tracker.channels.seen()[j].name == runner.registry.model().channels.names[n],
        !runner.state@.channels.dom().contains(runner.registry.model().channels.names[n]),
    ensures
        texts(r@).contains(runner.registry.model().channels.names[n]),
{
    let seen = runner.tracker.channels.seen();
    let names = runner.registry.model().channels.names;
    lemma_two_named(seen, names[n], i, j);
    lemma_ambiguous_listed(runner.state@.channels, names, seen, n);
}

proof fn lemma_named(seen: Seq<Seen>, name: Seq<char>, i: int)
    requires
        0 <= i < seen.len(),
        seen[i].name == name,
    ensures
        count_named(seen, name) >= 1,
    decreases seen.len(),
{
    if i < seen.len() - 1 {
        assert(seen.drop_last()[i] == seen[i]);
        lemma_named(seen.drop_last(), name, i);
    }
}

proof fn lemma_two_named(seen: Seq<Seen>, name: Seq<char>, i: int, j: int)
    requires
        0 <= i < j < seen.len(),
        seen[i].name == name,
        seen[j].name == name,
    ensures
        count_named(seen, name) >= 2,
    decreases seen.len(),
{
    let init = seen.drop_last();
    assert(init[i] == seen[i]);
    if j < seen.len() - 1 {
        assert(init[j] == seen[j]);
        lemma_two_named(init, name, i, j);
    } else {
        lemma_named(init, name, i);
    }
}

proof fn lemma_ambiguous_listed(
    known: Map<Seq<char>, u64>,
    names: Seq<Seq<char>>,
    seen: Seq<Seen>,
    n: int,
)
    requires
        0 <= n < names.len(),
        !known.dom().contains(names[n]),
        count_named(seen, names[n]) >= 2,
    ensures
        ambiguous(known, names, seen).contains(names[n]),
    decreases names.len(),
{
    let init = names.drop_last();
    let before = ambiguous(known, init, seen);
    let all = ambiguous(known, names, seen);
    if n == names.len() - 1 {
        assert(all[before.len() as int] == names[n]);
    } else {
        assert(init[n] == names[n]);
        lemma_ambiguous_listed(known, init, seen, n);
        let k = choose|k: int| 0 <= k < before.len() && before[k] == names[n];
        assert(all[k] == names[n]);
    }
}

/// The host tells who the bot is, what was asked for, and how much was dropped.
pub proof fn law_host_tells<'a>(
    host: &Host<'a>,
    user: UserRef,
    actions: &[Action],
    dropped: u64,
    a: ChannelRef,
    b: ChannelRef,
    same: bool,
)
    requires
        call_ensures(Host::bot_user, (host,), user),
        call_ensures(Host::actions, (host,), actions),
        call_ensures(Host::dropped, (host,), dropped),
        call_ensures(Host::eq::<ChannelRef>, (host, a, b), same),
    ensures
        user == host.user(),
        models(actions@) == host.queue().actions,
        dropped == host.queue().dropped,
        a.meaning(host.names()) is Some && b.meaning(host.names()) is Some ==> (same <==> a.meaning(
            host.names(),
        ) == b.meaning(host.names())),
        a.meaning(host.names()) is None && b.meaning(host.names()) is Some ==> !same,
{
}

/// The answer to one request is taken in before the next action's: a failure is
/// told, what was edited is remembered, and the next action's request follows.
pub proof fn law_answers_are_taken_in(
    runner: &mut Runner,
    execution: &mut Execution,
    follow: Follow,
    answer: Result<(u16, String), Error>,
    r: ExecutionStep,
    channel_id: u64,
)
    requires
        call_ensures(
            Runner::execute_actions,
            (runner, execution, ExecutionEvent::Answered { follow, answer }),
            r,
        ),
        old(execution).wf(),
    ensures
        final(execution).actions() == old(execution).actions(),
        answer matches Err(e) ==> r.finished == Err::<bool, Error>(e) && *final(runner) == *old(
            runner,
        ),
        answer matches Ok((status, body)) ==> {
            &&& status < 200 || status >= 300 ==> r.finished == Err::<bool, Error>(
                Error::ApiError { status },
            )
            &&& 200 <= status < 300 ==> (follow matches Follow::Edited { name, entry } ==> {
                &&& r.finished == Ok::<bool, Error>(true)
                &&& final(runner).state@.managed.dom().contains(name@)
                &&& final(runner).state@.managed[name@] == entry
            })
        },
        old(execution).done() < old(execution).actions().len() ==> {
            let action = old(execution).actions()[old(execution).done()]@;
            action matches ActionModel::SendMessage { channel, content } ==> (channel.meaning(
                final(runner).registry.model(),
            ) == Some(channel_id) ==> {
                &&& r.call matches Some((request, next))
                &&& request.method == Method::Post
                &&& request.path@ == "/api/v10/channels/"@ + decimal(channel_id as nat)
                    + "/messages"@
                &&& final(execution).done() == old(execution).done() + 1
            })
        },
        old(execution).done() == old(execution).actions().len() ==> r.call is None,
{
}

/// An event that is logged is one more line of the log.
pub proof fn law_log_grows<'a>(host: &mut Host<'a>, event: &Event, entry: LogModel)
    requires
        call_ensures(Host::log, (host, event), ()),
        old(host).logged() is Some,
        log_of(*event, old(host).names()) == Some(entry),
    ensures
        final(host).logged() == Some(old(host).logged()->0.push(log_text(entry))),
        final(host).queue() == old(host).queue(),
{
}

/// A name stands for the one thing that has it; for nothing if none has, and
/// for nothing certain if several have.
pub proof fn law_lookup(tracker: &NameTracker, name: &str, r: Lookup, i: int, j: int)
    requires
        call_ensures(NameTracker::lookup, (tracker, name), r),
    ensures
        ({
            let seen = tracker.seen();
            &&& 0 <= i < j < seen.len() && seen[i].name == name@ && seen[j].name == name@ ==> r
                == Lookup::Ambiguous
            &&& (forall|k: int| 0 <= k < seen.len() ==> (#[trigger] seen[k]).name != name@) ==> r
                == Lookup::Unknown
            &&& 0 <= i < seen.len() && seen[i].name == name@ && (forall|k: int|
                0 <= k < seen.len() && k != i ==> (#[trigger] seen[k]).name != name@) ==> r
                == Lookup::One(seen[i].id)
        }),
{
    let seen = tracker.seen();
    if 0 <= i < j < seen.len() && seen[i].name == name@ && seen[j].name == name@ {
        lemma_two_named(seen, name@, i, j);
    }
    if forall|k: int| 0 <= k < seen.len() ==> (#[trigger] seen[k]).name != name@ {
        lemma_none_named(seen, name@);
    }
    if 0 <= i < seen.len() && seen[i].name == name@ && (forall|k: int|
        0 <= k < seen.len() && k != i ==> (#[trigger] seen[k]).name != name@) {
        lemma_one_named(seen, name@, i);
    }
}

/// References to messages and roles in the configuration are like those to
/// channels; users have IDs only.
pub proof fn law_configured_ids(
    s: &str,
    a: &mut RefRegistry,
    message: Result<MessageRef, RefError>,
    b: &mut RefRegistry,
    role: Result<RoleRef, RefError>,
    user: Result<UserRef, RefError>,
    id: u64,
    m: RegistryModel,
)
    requires
        call_ensures(MessageRef::from_config, (s, a), message),
        call_ensures(RoleRef::from_config, (s, b), role),
        call_ensures(UserRef::from_config, (s,), user),
        s@ == "id:"@ + decimal(id as nat),
        id < 0x8000_0000_0000_0000,
    ensures
        message matches Ok(x) && x.meaning(m) == Some(id),
        role matches Ok(x) && x.meaning(m) == Some(id),
        user matches Ok(x) && x.meaning(m) == Some(id),
        final(a).model() == old(a).model(),
        final(b).model() == old(b).model(),
{
    reveal_strlit("id:");
    law_decimal_round_trip(id as nat, u64::MAX as nat);
    assert(s@.take(3) =~= "id:"@);
    assert(s@.skip(3) =~= decimal(id as nat));
    law_direct_reference(id, m.messages);
    law_direct_reference(id, m.roles);
}

/// A stable name in the configuration becomes a name of its kind, at the index
/// that the reference is.
pub proof fn law_configured_names(
    s: &str,
    a: &mut RefRegistry,
    channel: Result<ChannelRef, RefError>,
    b: &mut RefRegistry,
    message: Result<MessageRef, RefError>,
    c: &mut RefRegistry,
    role: Result<RoleRef, RefError>,
    name: Seq<char>,
)
    requires
        call_ensures(ChannelRef::from_config, (s, a), channel),
        call_ensures(MessageRef::from_config, (s, b), message),
        call_ensures(RoleRef::from_config, (s, c), role),
        s@ == "stablename:"@ + name,
        !name.contains('\t') && !name.contains('\n') && !name.contains('\r'),
        old(a).wf() && old(b).wf() && old(c).wf(),
    ensures
        channel matches Ok(x) && x.raw_value() < final(a).model().channels.names.len()
            && final(a).model().channels.names[x.raw_value() as int] == name,
        message matches Ok(x) && x.raw_value() < final(b).model().messages.names.len()
            && final(b).model().messages.names[x.raw_value() as int] == name,
        role matches Ok(x) && x.raw_value() < final(c).model().roles.names.len()
            && final(c).model().roles.names[x.raw_value() as int] == name,
        final(a).model().messages == old(a).model().messages,
        final(b).model().channels == old(b).model().channels,
        final(c).model().channels == old(c).model().channels,
{
    reveal_strlit("id:");
    reveal_strlit("stablename:");
    assert(s@.take(11) =~= "stablename:"@);
    assert(s@.skip(11) =~= name);
    assert(s@.take(3)[0] == 's');
    assert("id:"@[0] == 'i');
    law_names_are_registered_once(old(a).model().channels, name, name);
    law_names_are_registered_once(old(b).model().messages, name, name);
    law_names_are_registered_once(old(c).model().roles, name, name);
}

/// So do the stable names of roles.
pub proof fn law_role_names_are_found(runner: &mut Runner, changed: bool, role: RoleRef, i: int)
    requires
        call_ensures(Runner::start, (runner,), changed),
        ({
            let names = old(runner).registry.model().roles.names;
            let seen = old(runner).tracker.roles.seen();
            &&& role.raw_value() < names.len()
            &&& role.raw_value() & DIRECT_BIT == 0
            &&& 0 <= i < seen.len()
            &&& seen[i].name == names[role.raw_value() as int]
            &&& seen[i].id != 0
            &&& !old(runner).state@.roles.dom().contains(seen[i].name)
            &&& forall|j: int|
                0 <= j < seen.len() && j != i ==> (#[trigger] seen[j]).name != seen[i].name
        }),
    ensures
        role.meaning(final(runner).registry.model()) == Some(
            old(runner).tracker.roles.seen()[i].id,
        ),
        final(runner).state@.roles.dom().contains(old(runner).tracker.roles.seen()[i].name),
        changed,
{
    let names = old(runner).registry.model().roles.names;
    let seen = old(runner).tracker.roles.seen();
    let name = seen[i].name;
    assert(names[role.raw_value() as int] == name);
    assert(names.contains(name));
    law_unique_name_is_found(old(runner).state@.roles, names, seen, name, i);
    assert(final(runner).state@.roles != old(runner).state@.roles);
}

/// What is remembered of a name is what it stands for, whatever the guild has.
pub proof fn law_remembered_names_count(
    runner: &mut Runner,
    changed: bool,
    channel: ChannelRef,
    role: RoleRef,
    message: MessageRef,
)
    requires
        call_ensures(Runner::start, (runner,), changed),
        channel.raw_value() & DIRECT_BIT == 0,
        role.raw_value() & DIRECT_BIT == 0,
        message.raw_value() & DIRECT_BIT == 0,
        channel.raw_value() < old(runner).registry.model().channels.names.len(),
        role.raw_value() < old(runner).registry.model().roles.names.len(),
        message.raw_value() < old(runner).registry.model().messages.names.len(),
    ensures
        ({
            let m = old(runner).registry.model();
            let state = old(runner).state@;
            let c = m.channels.names[channel.raw_value() as int];
            let r = m.roles.names[role.raw_value() as int];
            let n = m.messages.names[message.raw_value() as int];
            let after = final(runner).registry.model();
            &&& state.channels.dom().contains(c) && state.channels[c] != 0 ==> channel.meaning(
                after,
            ) == Some(state.channels[c])
            &&& state.roles.dom().contains(r) && state.roles[r] != 0 ==> role.meaning(after)
                == Some(state.roles[r])
            &&& state.managed.dom().contains(n) && state.managed[n].message_id != 0
                ==> message.meaning(after) == Some(state.managed[n].message_id)
        }),
{
    let m = old(runner).registry.model();
    let state = old(runner).state@;
    let c = m.channels.names[channel.raw_value() as int];
    let r = m.roles.names[role.raw_value() as int];
    if state.channels.dom().contains(c) {
        law_seeding_keeps_what_is_known(
            state.channels,
            m.channels.names,
            old(runner).tracker.channels.seen(),
            c,
        );
    }
    if state.roles.dom().contains(r) {
        law_seeding_keeps_what_is_known(
            state.roles,
            m.roles.names,
            old(runner).tracker.roles.seen(),
            r,
        );
    }
}

/// Ambiguous names of roles are told like those of channels.
pub proof fn law_ambiguous_roles_are_told(runner: &Runner, r: Vec<String>, n: int, i: int, j: int)
    requires
        call_ensures(Runner::ambiguous_roles, (runner,), r),
        0 <= n < runner.registry.model().roles.names.len(),
        0 <= i < j < runner.tracker.roles.seen().len(),
        runner.tracker.roles.seen()[i].name == runner.registry.model().roles.names[n],
        runner.tracker.roles.seen()[j].name == runner.registry.model().roles.names[n],
        !runner.state@.roles.dom().contains(runner.registry.model().roles.names[n]),
    ensures
        texts(r@).contains(runner.registry.model().roles.names[n]),
{
    let seen = runner.tracker.roles.seen();
    let names = runner.registry.model().roles.names;
    lemma_two_named(seen, names[n], i, j);
    lemma_ambiguous_listed(runner.state@.roles, names, seen, n);
}

} // verus!
