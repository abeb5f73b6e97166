//! What carrying out an action does on Discord.
use vstd::prelude::*;
use vstd::utf8::encode_utf8;

use crate::bot::refs::{ChannelRef, MessageRef, Ref, RegistryModel, RoleRef, UserRef};
use crate::bot::runner::{finish_is, plan_is, remembers, Follow, Plan, Runner, SkipReason};
use crate::bot::state::{hash_of, ManagedMsg};
use crate::bot::types::{Action, ActionModel};
use crate::discord::api::{percent_bytes, ApiRequest, HttpApi};
use crate::discord::error::Error;
use crate::discord::http::Method;
use crate::json::{json_string, json_text_field};
use crate::text::{decimal, law_decimal_round_trip};

verus! {

/// A role is given with `PUT` and taken with `DELETE`, on one and the same path:
/// that of the member's role in the guild.
pub proof fn law_roles_are_given_and_taken(
    user: UserRef,
    role: RoleRef,
    m: RegistryModel,
    managed: Map<Seq<char>, ManagedMsg>,
    guild_id: u64,
    user_id: u64,
    role_id: u64,
    give: Plan,
    take: Plan,
)
    requires
        user.meaning(m) == Some(user_id),
        role.meaning(m) == Some(role_id),
        plan_is(ActionModel::AddRole { user, role }, m, managed, guild_id, give),
        plan_is(ActionModel::RemoveRole { user, role }, m, managed, guild_id, take),
    ensures
        give matches Plan::Call { request, follow } && {
            &&& request.method == Method::Put
            &&& request.path@ == "/api/v10/guilds/"@ + decimal(guild_id as nat) + "/members/"@
                + decimal(user_id as nat) + "/roles/"@ + decimal(role_id as nat)
            &&& request.body is None
            &&& follow is Nothing
        },
        take matches Plan::Call { request, follow } && {
            &&& request.method == Method::Delete
            &&& request.path@ == give->Call_request.path@
            &&& request.body is None
            &&& follow is Nothing
        },
{
}

/// A message is posted to the channel it is for, with the content asked for.
pub proof fn law_message_is_posted(
    channel: ChannelRef,
    content: Seq<char>,
    m: RegistryModel,
    managed: Map<Seq<char>, ManagedMsg>,
    guild_id: u64,
    channel_id: u64,
    plan: Plan,
)
    requires
        channel.meaning(m) == Some(channel_id),
        plan_is(ActionModel::SendMessage { channel, content }, m, managed, guild_id, plan),
    ensures
        plan matches Plan::Call { request, follow } && {
            &&& request.method == Method::Post
            &&& request.path@ == "/api/v10/channels/"@ + decimal(channel_id as nat) + "/messages"@
            &&& request.body matches Some(body)
            &&& body@ == "{\"content\":"@ + json_string(content) + "}"@
            &&& follow is Message
        },
{
}

/// A message is edited in place, and a reaction is added to it as the bot's own.
pub proof fn law_message_is_changed(
    channel: ChannelRef,
    message: MessageRef,
    text: Seq<char>,
    m: RegistryModel,
    managed: Map<Seq<char>, ManagedMsg>,
    guild_id: u64,
    channel_id: u64,
    message_id: u64,
    edit: Plan,
    react: Plan,
)
    requires
        channel.meaning(m) == Some(channel_id),
        message.meaning(m) == Some(message_id),
        plan_is(
            ActionModel::EditMessage { channel, message, content: text },
            m,
            managed,
            guild_id,
            edit,
        ),
        plan_is(
            ActionModel::AddReaction { channel, message, emoji: text },
            m,
            managed,
            guild_id,
            react,
        ),
    ensures
        edit matches Plan::Call { request, follow } && {
            &&& request.method == Method::Patch
            &&& request.path@ == "/api/v10/channels/"@ + decimal(channel_id as nat) + "/messages"@
                + "/"@ + decimal(message_id as nat)
            &&& request.body matches Some(body)
            &&& body@ == "{\"content\":"@ + json_string(text) + "}"@
            &&& follow is Nothing
        },
        react matches Plan::Call { request, follow } && {
            &&& request.method == Method::Put
            &&& request.path@ == edit->Call_request.path@ + "/reactions/"@ + percent_bytes(
                encode_utf8(text),
            ) + "/@me"@
            &&& request.body is None
            &&& follow is Nothing
        },
{
}

/// What does not stand for anything is not guessed: the action is skipped, and
/// the reason says what is missing.
pub proof fn law_unresolved_actions_are_skipped(
    action: ActionModel,
    m: RegistryModel,
    managed: Map<Seq<char>, ManagedMsg>,
    guild_id: u64,
    plan: Plan,
)
    requires
        plan_is(action, m, managed, guild_id, plan),
    ensures
        match action {
            ActionModel::SendMessage { channel, content } => channel.meaning(m) is None ==> plan
                == Plan::Skip(SkipReason::UnresolvedChannel),
            ActionModel::EditMessage { channel, message, content } => {
                &&& channel.meaning(m) is None ==> plan == Plan::Skip(
                    SkipReason::UnresolvedChannel,
                )
                &&& channel.meaning(m) is Some && message.meaning(m) is None ==> plan == Plan::Skip(
                    SkipReason::UnresolvedMessage,
                )
            },
            ActionModel::AddReaction { channel, message, emoji } => {
                &&& channel.meaning(m) is None ==> plan == Plan::Skip(
                    SkipReason::UnresolvedChannel,
                )
                &&& channel.meaning(m) is Some && message.meaning(m) is None ==> plan == Plan::Skip(
                    SkipReason::UnresolvedMessage,
                )
            },
            ActionModel::AddRole { user, role } => {
                &&& user.meaning(m) is None ==> plan == Plan::Skip(SkipReason::UnresolvedUser)
                &&& user.meaning(m) is Some && role.meaning(m) is None ==> plan == Plan::Skip(
                    SkipReason::UnresolvedRole,
                )
            },
            ActionModel::RemoveRole { user, role } => {
                &&& user.meaning(m) is None ==> plan == Plan::Skip(SkipReason::UnresolvedUser)
                &&& user.meaning(m) is Some && role.meaning(m) is None ==> plan == Plan::Skip(
                    SkipReason::UnresolvedRole,
                )
            },
            ActionModel::UpsertMessage { message, channel, content } => {
                &&& m.message_name(message.raw_value()) is None ==> plan == Plan::Skip(
                    SkipReason::UnresolvedMessage,
                )
                &&& m.message_name(message.raw_value()) is Some && channel.meaning(m) is None
                    ==> plan == Plan::Skip(SkipReason::UnresolvedChannel)
            },
        },
{
}

/// A managed message is posted if it is not known, and edited where it is if it
/// is; it is never posted twice, and never moved.
pub proof fn law_managed_message_is_kept(
    message: MessageRef,
    channel: ChannelRef,
    content: Seq<char>,
    m: RegistryModel,
    managed: Map<Seq<char>, ManagedMsg>,
    guild_id: u64,
    name: Seq<char>,
    channel_id: u64,
    plan: Plan,
)
    requires
        m.message_name(message.raw_value()) == Some(name),
        channel.meaning(m) == Some(channel_id),
        plan_is(
            ActionModel::UpsertMessage { message, channel, content },
            m,
            managed,
            guild_id,
            plan,
        ),
    ensures
        !managed.dom().contains(name) ==> {
            &&& plan matches Plan::Call { request, follow }
            &&& request.method == Method::Post
            &&& request.path@ == "/api/v10/channels/"@ + decimal(channel_id as nat) + "/messages"@
            &&& request.body matches Some(body)
            &&& body@ == "{\"content\":"@ + json_string(content) + "}"@
            &&& follow matches Follow::Posted { name: n, channel_id: c, content_hash }
            &&& n@ == name && c == channel_id && content_hash == hash_of(content)
        },
        managed.dom().contains(name) && managed[name].channel_id == channel_id ==> {
            &&& plan matches Plan::Call { request, follow }
            &&& request.method == Method::Patch
            &&& request.path@ == "/api/v10/channels/"@ + decimal(channel_id as nat) + "/messages"@
                + "/"@ + decimal(managed[name].message_id as nat)
            &&& request.body matches Some(body)
            &&& body@ == "{\"content\":"@ + json_string(content) + "}"@
            &&& follow matches Follow::Edited { name: n, entry }
            &&& n@ == name && entry == (ManagedMsg {
                message_id: managed[name].message_id,
                channel_id,
                content_hash: entry.content_hash,
            }) && entry.content_hash == hash_of(content)
        },
        managed.dom().contains(name) && managed[name].channel_id != channel_id ==> plan
            == Plan::Skip(SkipReason::OtherChannel),
{
}

/// A post or an edit that succeeded is remembered, with what was posted and
/// where, and the state is saved.  One that failed is not, and says why.
pub proof fn law_managed_message_is_remembered(
    before: Runner,
    follow: Follow,
    answer: Result<(u16, String), Error>,
    r: Result<bool, Error>,
    after: Runner,
)
    requires
        finish_is(before, follow, answer, r, after),
    ensures
        answer matches Err(e) ==> r == Err::<bool, Error>(e) && after == before,
        answer matches Ok((status, body)) ==> {
            &&& status < 200 || status >= 300 ==> r == Err::<bool, Error>(
                Error::ApiError { status },
            ) && after == before
            &&& 200 <= status < 300 ==> {
                &&& follow is Nothing ==> r == Ok::<bool, Error>(false) && after == before
                &&& follow matches Follow::Edited { name, entry } ==> {
                    &&& r == Ok::<bool, Error>(true)
                    &&& after.state@.managed.dom().contains(name@)
                    &&& after.state@.managed[name@] == entry
                    &&& after.state@.channels == before.state@.channels
                    &&& after.state@.roles == before.state@.roles
                }
            }
        },
{
}

/// A managed message that was posted is remembered under the ID that the answer
/// gives.
pub proof fn law_posted_message_is_remembered(
    before: Runner,
    name: String,
    channel_id: u64,
    content_hash: u64,
    status: u16,
    body: String,
    id: u64,
    r: Result<bool, Error>,
    after: Runner,
)
    requires
        200 <= status < 300,
        json_text_field(body@, "id"@) == Ok::<Option<Seq<char>>, Seq<char>>(
            Some(decimal(id as nat)),
        ),
        finish_is(
            before,
            Follow::Posted { name, channel_id, content_hash },
            Ok((status, body)),
            r,
            after,
        ),
    ensures
        r == Ok::<bool, Error>(true),
        after.state@.managed.dom() == before.state@.managed.dom().insert(name@),
        after.state@.managed[name@] == (ManagedMsg { message_id: id, channel_id, content_hash }),
        after.state@.channels == before.state@.channels,
        after.state@.roles == before.state@.roles,
        forall|other: Seq<char>|
            other != name@ && before.state@.managed.dom().contains(other)
                ==> #[trigger] after.state@.managed[other] == before.state@.managed[other],
{
    law_decimal_round_trip(id as nat, u64::MAX as nat);
    assert(after.state@.managed.dom() =~= before.state@.managed.dom().insert(name@));
}

/// The API's calls: method and path of each.
pub proof fn law_api_calls(
    guild_id: u64,
    user_id: u64,
    role_id: u64,
    give: ApiRequest,
    take: ApiRequest,
    url: ApiRequest,
)
    requires
        call_ensures(HttpApi::add_role, (guild_id, user_id, role_id), give),
        call_ensures(HttpApi::remove_role, (guild_id, user_id, role_id), take),
        call_ensures(HttpApi::get_gateway_url, (), url),
    ensures
        give.method == Method::Put,
        take.method == Method::Delete,
        give.path@ == take.path@,
        give.path@ == "/api/v10/guilds/"@ + decimal(guild_id as nat) + "/members/"@ + decimal(
            user_id as nat,
        ) + "/roles/"@ + decimal(role_id as nat),
        url.method == Method::Get,
        url.path@ == "/api/v10/gateway/bot"@,
{
}

/// An answer without an ID leaves a posted message unknown, and one that only
/// posts changes nothing.
pub proof fn law_nothing_to_remember(
    before: Runner,
    follow: Follow,
    status: u16,
    body: String,
    r: Result<bool, Error>,
    after: Runner,
)
    requires
        200 <= status < 300,
        json_text_field(body@, "id"@) == Ok::<Option<Seq<char>>, Seq<char>>(None),
        finish_is(before, follow, Ok((status, body)), r, after),
        !(follow is Edited),
    ensures
        r == Ok::<bool, Error>(false),
        after == before,
{
}

/// Once a managed message is posted, its name stands for it, so that reactions
/// and edits reach it.
pub proof fn law_posted_message_can_be_meant(
    before: Runner,
    name: Seq<char>,
    entry: ManagedMsg,
    after: Runner,
    message: MessageRef,
)
    requires
        remembers(before, name, entry, after),
        before.registry.model().message_name(message.raw_value()) == Some(name),
        entry.message_id != 0,
    ensures
        message.meaning(after.registry.model()) == Some(entry.message_id),
        after.registry.model().message_name(message.raw_value()) == Some(name),
        after.registry.model().channels.names == before.registry.model().channels.names,
        after.registry.model().roles.names == before.registry.model().roles.names,
{
}

/// Planning an action, and taking in its answer, are as said above.
pub proof fn law_plan_and_finish(
    runner: &Runner,
    action: &Action,
    plan: Plan,
    other: &mut Runner,
    follow: Follow,
    answer: Result<(u16, String), Error>,
    r: Result<bool, Error>,
)
    requires
        call_ensures(Runner::plan, (runner, action), plan),
        call_ensures(Runner::finish, (other, follow, answer), r),
    ensures
        plan_is(
            action@,
            runner.registry.model(),
            runner.state@.managed,
            runner.guild_id,
            plan,
        ),
        finish_is(*old(other), follow, answer, r, *final(other)),
{
}

} // verus!
