//! What the runner makes of a session: when the bot is told what, and when the
//! next session begins.
use vstd::prelude::*;

use crate::bot::refs::{law_direct_reference, Ref, RefRegistry, RegistryModel, DIRECT_BIT};
use crate::bot::runner::{
    convert_event, state_file, FatalError, Runner, SessionExit, SessionStart,
};
use crate::bot::sessions::{AfterSession, SessionEvent, SessionStep};
use crate::bot::state::State;
use crate::bot::types::Event;
use crate::discord::error::Error;
use crate::discord::message;
use crate::discord::session::PollError;
use crate::text::decimal;

verus! {

/// IDs as they are: below the highest bit.
pub open spec fn is_id(id: u64) -> bool {
    id < 0x8000_0000_0000_0000
}

/// What the gateway tells of a reaction or a message is what the bot is told:
/// who, where, which message, and what it says.
pub proof fn law_events_are_converted(raw: &message::Event, r: Option<Event>, m: RegistryModel)
    requires
        call_ensures(convert_event, (raw,), r),
    ensures
        match *raw {
            message::Event::ReactionAdd(x) => is_id(x.user_id) && is_id(x.channel_id) && is_id(
                x.message_id,
            ) ==> {
                &&& r matches Some(Event::Reaction { user, channel, message, emoji, added })
                &&& user.meaning(m) == Some(x.user_id)
                &&& channel.meaning(m) == Some(x.channel_id)
                &&& message.meaning(m) == Some(x.message_id)
                &&& x.emoji.id is None && x.emoji.name is Some ==> emoji@ == x.emoji.name->0@
                &&& x.emoji.id is Some && x.emoji.name is Some ==> emoji@ == x.emoji.name->0@
                    + ":"@ + decimal(x.emoji.id->0 as nat)
                &&& added
            },
            message::Event::ReactionRemove(x) => is_id(x.user_id) && is_id(x.channel_id) && is_id(
                x.message_id,
            ) ==> {
                &&& r matches Some(Event::Reaction { user, channel, message, emoji, added })
                &&& user.meaning(m) == Some(x.user_id)
                &&& channel.meaning(m) == Some(x.channel_id)
                &&& message.meaning(m) == Some(x.message_id)
                &&& x.emoji.id is None && x.emoji.name is Some ==> emoji@ == x.emoji.name->0@
                &&& x.emoji.id is Some && x.emoji.name is Some ==> emoji@ == x.emoji.name->0@
                    + ":"@ + decimal(x.emoji.id->0 as nat)
                &&& !added
            },
            message::Event::MessageCreate(x) => is_id(x.id) && is_id(x.channel_id) && is_id(
                x.author.id,
            ) ==> {
                &&& r matches Some(
                    Event::MessageCreate { message_id, channel, author, author_name, content },
                )
                &&& message_id.meaning(m) == Some(x.id)
                &&& channel.meaning(m) == Some(x.channel_id)
                &&& author.meaning(m) == Some(x.author.id)
                &&& author_name@ == x.author.username@
                &&& content@ == x.content@
            },
            message::Event::MessageUpdate(x) => is_id(x.id) && is_id(x.channel_id) ==> {
                &&& r matches Some(Event::MessageUpdate { message, channel, content })
                &&& message.meaning(m) == Some(x.id)
                &&& channel.meaning(m) == Some(x.channel_id)
                &&& x.content is None ==> content is None
                &&& x.content is Some ==> content is Some && content->0@ == x.content->0@
            },
            message::Event::MessageDelete(x) => is_id(x.id) && is_id(x.channel_id) ==> {
                &&& r matches Some(Event::MessageDelete { message, channel })
                &&& message.meaning(m) == Some(x.id)
                &&& channel.meaning(m) == Some(x.channel_id)
            },
            _ => r is None,
        },
{
    match *raw {
        message::Event::ReactionAdd(x) => {
            lemma_ids(x.user_id, x.channel_id, x.message_id, m);
        },
        message::Event::ReactionRemove(x) => {
            lemma_ids(x.user_id, x.channel_id, x.message_id, m);
        },
        message::Event::MessageCreate(x) => {
            lemma_ids(x.author.id, x.channel_id, x.id, m);
        },
        message::Event::MessageUpdate(x) => {
            lemma_ids(0, x.channel_id, x.id, m);
        },
        message::Event::MessageDelete(x) => {
            lemma_ids(0, x.channel_id, x.id, m);
        },
        _ => {},
    }
}

proof fn lemma_ids(user: u64, channel: u64, message: u64, m: RegistryModel)
    ensures
        is_id(user) ==> (user | DIRECT_BIT) & DIRECT_BIT != 0 && (user | DIRECT_BIT) & !DIRECT_BIT
            == user,
        is_id(channel) ==> m.channels.lookup(channel | DIRECT_BIT) == Some(channel),
        is_id(message) ==> m.messages.lookup(message | DIRECT_BIT) == Some(message),
{
    if is_id(user) {
        assert((user | 0x8000_0000_0000_0000u64) & 0x8000_0000_0000_0000u64 != 0 && (user
            | 0x8000_0000_0000_0000u64) & !0x8000_0000_0000_0000u64 == user) by (bit_vector)
            requires
                user < 0x8000_0000_0000_0000u64,
        ;
    }
    if is_id(channel) {
        law_direct_reference(channel, m.channels);
    }
    if is_id(message) {
        law_direct_reference(message, m.messages);
    }
}

/// A session begins by resuming the last one if that can be resumed, which is
/// tried once, and by connecting afresh otherwise.
pub proof fn law_session_begins(runner: &mut Runner, r: SessionStep)
    requires
        call_ensures(Runner::run_session, (runner, SessionEvent::Begin), r),
    ensures
        old(runner).resume_data matches Some(data) ==> r == SessionStep::Connect(
            SessionStart::Resume(data),
        ),
        old(runner).resume_data is None ==> r == SessionStep::Connect(SessionStart::Connect),
        final(runner).resume_data is None,
        final(runner).state == old(runner).state,
        final(runner).registry == old(runner).registry,
{
}

/// A session goes on only if the bot is in the configured guild; if it is not,
/// the bot stops.  A connection that failed is tried again.
pub proof fn law_guild_is_checked(
    runner: &mut Runner,
    guild_ids: Vec<u64>,
    r: SessionStep,
    other: &mut Runner,
    e: Error,
    failed: SessionStep,
)
    requires
        call_ensures(Runner::run_session, (runner, SessionEvent::Connected(Ok(guild_ids))), r),
        call_ensures(Runner::run_session, (other, SessionEvent::Connected(Err(e))), failed),
    ensures
        (exists|i: int| 0 <= i < guild_ids@.len() && guild_ids@[i] == old(runner).guild_id) ==> r
            == SessionStep::Poll,
        (forall|i: int| 0 <= i < guild_ids@.len() ==> guild_ids@[i] != old(runner).guild_id) ==> r
            == SessionStep::Exit(
            SessionExit::Fatal(FatalError::GuildNotFound(old(runner).guild_id)),
        ),
        failed == SessionStep::Exit(SessionExit::Retry(e)),
        *final(runner) == *old(runner),
{
}

/// The bot is told to start when its guild is known, when a session was resumed,
/// and when its configuration was reloaded; another guild is nothing to it.
pub proof fn law_bot_is_started(
    runner: &mut Runner,
    event: SessionEvent,
    r: SessionStep,
)
    requires
        call_ensures(Runner::run_session, (runner, event), r),
    ensures
        event matches SessionEvent::Polled(Ok(Some(message::Event::Resumed)))
            ==> (r matches SessionStep::Handle { event: Event::Started, save }),
        event matches SessionEvent::Polled(Ok(Some(message::Event::GuildCreate(gc)))) ==> {
            &&& gc.id == old(runner).guild_id ==> (r matches SessionStep::Handle {
                event: Event::Started,
                save,
            })
            &&& gc.id != old(runner).guild_id ==> r == SessionStep::Rest && *final(runner) == *old(
                runner,
            )
        },
        event matches SessionEvent::Reloaded(Some(registry)) ==> {
            &&& r matches SessionStep::Handle { event: Event::Started, save }
            &&& final(runner).registry.model().channels.names == registry.model().channels.names
            &&& final(runner).registry.model().messages.names == registry.model().messages.names
            &&& final(runner).registry.model().roles.names == registry.model().roles.names
        },
        event matches SessionEvent::Reloaded(None) ==> r == SessionStep::Rest && *final(runner)
            == *old(runner),
        event matches SessionEvent::Polled(Ok(None)) ==> r == SessionStep::Rest && *final(runner)
            == *old(runner),
        event is Handled ==> r == SessionStep::Poll && *final(runner) == *old(runner),
        r matches SessionStep::Handle { event: e, save } && save ==> final(runner).state@ != old(
            runner,
        ).state@,
{
}

/// A message or a reaction is handed to the bot as the gateway told it.
pub proof fn law_bot_is_told(
    runner: &mut Runner,
    raw: message::Event,
    r: SessionStep,
    m: RegistryModel,
)
    requires
        call_ensures(Runner::run_session, (runner, SessionEvent::Polled(Ok(Some(raw)))), r),
    ensures
        raw matches message::Event::MessageCreate(x) ==> (is_id(x.id) && is_id(x.channel_id)
            && is_id(x.author.id) ==> {
            &&& r matches SessionStep::Handle {
                event: Event::MessageCreate { message_id, channel, author, author_name, content },
                save,
            }
            &&& message_id.meaning(m) == Some(x.id)
            &&& channel.meaning(m) == Some(x.channel_id)
            &&& author.meaning(m) == Some(x.author.id)
            &&& author_name@ == x.author.username@
            &&& content@ == x.content@
            &&& !save
        }),
        raw matches message::Event::ReactionAdd(x) ==> (is_id(x.user_id) && is_id(x.message_id)
            ==> {
            &&& r matches SessionStep::Handle {
                event: Event::Reaction { user, channel, message, emoji, added },
                save,
            }
            &&& user.meaning(m) == Some(x.user_id)
            &&& message.meaning(m) == Some(x.message_id)
            &&& added
        }),
        raw matches message::Event::ReactionRemove(x) ==> (is_id(x.user_id) && is_id(x.message_id)
            ==> {
            &&& r matches SessionStep::Handle {
                event: Event::Reaction { user, channel, message, emoji, added },
                save,
            }
            &&& user.meaning(m) == Some(x.user_id)
            &&& message.meaning(m) == Some(x.message_id)
            &&& !added
        }),
        raw matches message::Event::MessageDelete(x) ==> (is_id(x.id) && is_id(x.channel_id) ==> {
            &&& r matches SessionStep::Handle {
                event: Event::MessageDelete { message, channel },
                save,
            }
            &&& message.meaning(m) == Some(x.id)
            &&& channel.meaning(m) == Some(x.channel_id)
        }),
        raw matches message::Event::MessageUpdate(x) ==> (is_id(x.id) && is_id(x.channel_id) ==> {
            &&& r matches SessionStep::Handle {
                event: Event::MessageUpdate { message, channel, content },
                save,
            }
            &&& message.meaning(m) == Some(x.id)
            &&& channel.meaning(m) == Some(x.channel_id)
            &&& x.content is Some ==> content is Some && content->0@ == x.content->0@
        }),
{
    match raw {
        message::Event::ReactionAdd(x) => {
            lemma_ids(x.user_id, x.channel_id, x.message_id, m);
        },
        message::Event::ReactionRemove(x) => {
            lemma_ids(x.user_id, x.channel_id, x.message_id, m);
        },
        message::Event::MessageCreate(x) => {
            lemma_ids(x.author.id, x.channel_id, x.id, m);
        },
        message::Event::MessageUpdate(x) => {
            lemma_ids(0, x.channel_id, x.id, m);
        },
        message::Event::MessageDelete(x) => {
            lemma_ids(0, x.channel_id, x.id, m);
        },
        _ => {},
    }
}

/// What a poll error does: a session that can be resumed is kept for that, a
/// dead one is not; a wrong configuration stops the bot; and what is transient
/// changes nothing.
pub proof fn law_poll_error_ends_session(runner: &mut Runner, error: PollError, r: SessionStep)
    requires
        call_ensures(Runner::run_session, (runner, SessionEvent::Polled(Err(error))), r),
    ensures
        error matches PollError::Resume { error: e, session } ==> {
            &&& r == SessionStep::Exit(SessionExit::Retry(e))
            &&& final(runner).resume_data == Some(*session)
        },
        error matches PollError::Reconnect(e) ==> {
            &&& r == SessionStep::Exit(SessionExit::Retry(e))
            &&& final(runner).resume_data == old(runner).resume_data
        },
        error matches PollError::Fatal(e) ==> r == SessionStep::Exit(
            SessionExit::Fatal(FatalError::Gateway(e)),
        ),
        error is NotConnected ==> r == SessionStep::Exit(
            SessionExit::Fatal(FatalError::NotConnected),
        ),
        error is Transient ==> r == SessionStep::Rest && final(runner).resume_data == old(
            runner,
        ).resume_data,
        final(runner).state == old(runner).state,
        final(runner).registry == old(runner).registry,
{
}

/// After a session that ended, the next one begins: after a second if the last
/// one can be resumed, else after five, and then the guild is learned anew.
/// Only what is fatal stops the bot.
pub proof fn law_sessions_follow(runner: &mut Runner, exit: SessionExit, r: AfterSession)
    requires
        call_ensures(Runner::run_inner, (runner, exit), r),
    ensures
        exit matches SessionExit::Fatal(e) ==> r == AfterSession::Stop(e),
        exit matches SessionExit::Retry(e) ==> {
            &&& old(runner).resume_data is Some ==> r == (AfterSession::RetryIn {
                seconds: 1,
                error: e,
            }) && final(runner).tracker == old(runner).tracker
            &&& old(runner).resume_data is None ==> r == (AfterSession::RetryIn {
                seconds: 5,
                error: e,
            }) && final(runner).tracker.channels.seen().len() == 0
                && final(runner).tracker.roles.seen().len() == 0
            &&& final(runner).resume_data == old(runner).resume_data
            &&& final(runner).state == old(runner).state
        },
{
}

/// A fresh runner has nothing to resume and has seen nothing.
pub proof fn law_new_runner(
    registry: RefRegistry,
    state: State,
    guild_id: u64,
    r: Runner,
    file: &'static str,
)
    requires
        call_ensures(Runner::new, (registry, state, guild_id), r),
        call_ensures(state_file, (), file),
    ensures
        r.registry == registry,
        r.state == state,
        r.guild_id == guild_id,
        r.resume_data is None,
        r.tracker.channels.seen().len() == 0,
        r.tracker.roles.seen().len() == 0,
        file@ == "state.dat"@,
{
}

} // verus!
