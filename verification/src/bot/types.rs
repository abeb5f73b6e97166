//! What bots are told, and what they ask for.
use vstd::prelude::*;

use crate::bot::refs::{ChannelRef, MessageRef, Ref, RefRegistry, RegistryModel, RoleRef, UserRef};

verus! {

/// Something that happened.
#[derive(Debug)]
#[non_exhaustive]
pub enum Event {
    /// The bot has started, or its configuration was reloaded.
    Started,
    Reaction {
        user: UserRef,
        channel: ChannelRef,
        message: MessageRef,
        emoji: String,
        added: bool,
    },
    MessageCreate {
        message_id: MessageRef,
        channel: ChannelRef,
        author: UserRef,
        author_name: String,
        content: String,
    },
    MessageUpdate { message: MessageRef, channel: ChannelRef, content: Option<String> },
    MessageDelete { message: MessageRef, channel: ChannelRef },
}

/// Something that a bot wants done.
#[derive(Debug)]
#[non_exhaustive]
pub enum Action {
    SendMessage { channel: ChannelRef, content: String },
    EditMessage { channel: ChannelRef, message: MessageRef, content: String },
    AddRole { user: UserRef, role: RoleRef },
    RemoveRole { user: UserRef, role: RoleRef },
    AddReaction { channel: ChannelRef, message: MessageRef, emoji: String },
    UpsertMessage { message: MessageRef, channel: ChannelRef, content: String },
}

/// An action with its texts as character sequences.
pub enum ActionModel {
    SendMessage { channel: ChannelRef, content: Seq<char> },
    EditMessage { channel: ChannelRef, message: MessageRef, content: Seq<char> },
    AddRole { user: UserRef, role: RoleRef },
    RemoveRole { user: UserRef, role: RoleRef },
    AddReaction { channel: ChannelRef, message: MessageRef, emoji: Seq<char> },
    UpsertMessage { message: MessageRef, channel: ChannelRef, content: Seq<char> },
}

impl View for Action {
    type V = ActionModel;

    open spec fn view(&self) -> ActionModel {
        match *self {
            Action::SendMessage { channel, content } => ActionModel::SendMessage {
                channel,
                content: content@,
            },
            Action::EditMessage { channel, message, content } => ActionModel::EditMessage {
                channel,
                message,
                content: content@,
            },
            Action::AddRole { user, role } => ActionModel::AddRole { user, role },
            Action::RemoveRole { user, role } => ActionModel::RemoveRole { user, role },
            Action::AddReaction { channel, message, emoji } => ActionModel::AddReaction {
                channel,
                message,
                emoji: emoji@,
            },
            Action::UpsertMessage { message, channel, content } => ActionModel::UpsertMessage {
                message,
                channel,
                content: content@,
            },
        }
    }
}

/// Actions with their texts as character sequences.
pub open spec fn models(actions: Seq<Action>) -> Seq<ActionModel> {
    Seq::new(actions.len(), |i: int| actions[i]@)
}

/// An event as it is logged: with IDs.
#[derive(Debug)]
pub enum LogEntry {
    Reaction { channel_id: u64, message_id: u64, user_id: u64, emoji: String, added: bool },
    MessageCreate {
        channel_id: u64,
        message_id: u64,
        author_id: u64,
        author_name: String,
        content: String,
    },
    MessageEdit { channel_id: u64, message_id: u64, content: String },
    MessageDelete { channel_id: u64, message_id: u64 },
}

/// A log entry with its texts as character sequences.
pub enum LogModel {
    Reaction { channel_id: u64, message_id: u64, user_id: u64, emoji: Seq<char>, added: bool },
    MessageCreate {
        channel_id: u64,
        message_id: u64,
        author_id: u64,
        author_name: Seq<char>,
        content: Seq<char>,
    },
    MessageEdit { channel_id: u64, message_id: u64, content: Seq<char> },
    MessageDelete { channel_id: u64, message_id: u64 },
}

impl View for LogEntry {
    type V = LogModel;

    open spec fn view(&self) -> LogModel {
        match *self {
            LogEntry::Reaction { channel_id, message_id, user_id, emoji, added } =>
                LogModel::Reaction { channel_id, message_id, user_id, emoji: emoji@, added },
            LogEntry::MessageCreate { channel_id, message_id, author_id, author_name, content } =>
                LogModel::MessageCreate {
                    channel_id,
                    message_id,
                    author_id,
                    author_name: author_name@,
                    content: content@,
                },
            LogEntry::MessageEdit { channel_id, message_id, content } => LogModel::MessageEdit {
                channel_id,
                message_id,
                content: content@,
            },
            LogEntry::MessageDelete { channel_id, message_id } => LogModel::MessageDelete {
                channel_id,
                message_id,
            },
        }
    }
}

/// How an event is logged, if it is: all its references must stand for
/// something, and an edit must tell the content.
pub open spec fn log_of(event: Event, m: RegistryModel) -> Option<LogModel> {
    match event {
        Event::Started => None,
        Event::Reaction { user, channel, message, emoji, added } => match (
            channel.meaning(m),
            message.meaning(m),
            user.meaning(m),
        ) {
            (Some(channel_id), Some(message_id), Some(user_id)) => Some(
                LogModel::Reaction { channel_id, message_id, user_id, emoji: emoji@, added },
            ),
            _ => None,
        },
        Event::MessageCreate { message_id, channel, author, author_name, content } => match (
            channel.meaning(m),
            message_id.meaning(m),
            author.meaning(m),
        ) {
            (Some(channel_id), Some(message_id), Some(author_id)) => Some(
                LogModel::MessageCreate {
                    channel_id,
                    message_id,
                    author_id,
                    author_name: author_name@,
                    content: content@,
                },
            ),
            _ => None,
        },
        Event::MessageUpdate { message, channel, content } => match (
            content,
            channel.meaning(m),
            message.meaning(m),
        ) {
            (Some(content), Some(channel_id), Some(message_id)) => Some(
                LogModel::MessageEdit { channel_id, message_id, content: content@ },
            ),
            _ => None,
        },
        Event::MessageDelete { message, channel } => match (
            channel.meaning(m),
            message.meaning(m),
        ) {
            (Some(channel_id), Some(message_id)) => Some(
                LogModel::MessageDelete { channel_id, message_id },
            ),
            _ => None,
        },
    }
}

impl LogEntry {
    /// How an event is logged, if it is.
    pub fn from_event(event: &Event, registry: &RefRegistry) -> (r: Option<Self>)
        ensures
            match r {
                Some(entry) => log_of(*event, registry.model()) == Some(entry@),
                None => log_of(*event, registry.model()) is None,
            },
    {
        match event {
            Event::Started => None,
            Event::Reaction { user, channel, message, emoji, added } => match (
                registry.resolve_channel(*channel),
                registry.resolve_message(*message),
                registry.resolve_user(*user),
            ) {
                (Some(channel_id), Some(message_id), Some(user_id)) => Some(
                    LogEntry::Reaction {
                        channel_id,
                        message_id,
                        user_id,
                        emoji: emoji.clone(),
                        added: *added,
                    },
                ),
                _ => None,
            },
            Event::MessageCreate { message_id, channel, author, author_name, content } => match (
                registry.resolve_channel(*channel),
                registry.resolve_message(*message_id),
                registry.resolve_user(*author),
            ) {
                (Some(channel_id), Some(message_id), Some(author_id)) => Some(
                    LogEntry::MessageCreate {
                        channel_id,
                        message_id,
                        author_id,
                        author_name: author_name.clone(),
                        content: content.clone(),
                    },
                ),
                _ => None,
            },
            Event::MessageUpdate { message, channel, content } => {
                let content = match content {
                    Some(content) => content,
                    None => {
                        return None;
                    },
                };
                match (registry.resolve_channel(*channel), registry.resolve_message(*message)) {
                    (Some(channel_id), Some(message_id)) => Some(
                        LogEntry::MessageEdit {
                            channel_id,
                            message_id,
                            content: content.clone(),
                        },
                    ),
                    _ => None,
                }
            },
            Event::MessageDelete { message, channel } => match (
                registry.resolve_channel(*channel),
                registry.resolve_message(*message),
            ) {
                (Some(channel_id), Some(message_id)) => Some(
                    LogEntry::MessageDelete { channel_id, message_id },
                ),
                _ => None,
            },
        }
    }
}

} // verus!
