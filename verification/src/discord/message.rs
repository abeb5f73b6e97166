//! Gateway messages.
use vstd::prelude::*;

use crate::text::{decimal, with_number};

verus! {

/// A message author.
#[derive(Debug)]
pub struct Author {
    pub id: u64,
    pub username: String,
}

/// A reaction emoji: a Unicode emoji (name only) or a custom guild emoji
/// (name and ID).
#[derive(Debug)]
pub struct Emoji {
    pub name: Option<String>,
    pub id: Option<u64>,
}

impl Emoji {
    /// The emoji as the API writes it.
    pub open spec fn text(self) -> Seq<char> {
        match (self.name, self.id) {
            (Some(name), Some(id)) => name@ + ":"@ + decimal(id as nat),
            (Some(name), None) => name@,
            (None, Some(id)) => "_"@ + decimal(id as nat),
            (None, None) => Seq::empty(),
        }
    }

    /// The emoji as the API writes it.
    pub fn to_text(&self) -> (r: String)
        ensures
            r@ == self.text(),
    {
        match &self.name {
            Some(name) => match self.id {
                Some(id) => {
                    let mut r = name.clone();
                    r.append(":");
                    with_number(r.as_str(), id)
                },
                None => name.clone(),
            },
            None => match self.id {
                Some(id) => with_number("_", id),
                None => String::new(),
            },
        }
    }
}

/// An unavailable guild stub from the READY payload.
#[derive(Debug)]
pub struct PartialGuild {
    pub id: u64,
}

/// A guild channel.
#[derive(Debug)]
pub struct Channel {
    pub id: u64,
    pub name: String,
}

/// A guild role.
#[derive(Debug)]
pub struct Role {
    pub id: u64,
    pub name: String,
}

/// The READY payload, received after a successful IDENTIFY.
#[derive(Debug)]
pub struct Ready {
    pub user: Author,
    pub guilds: Vec<PartialGuild>,
    pub session_id: String,
    pub resume_gateway_url: String,
}

/// A full guild snapshot with channels and roles.
#[derive(Debug)]
pub struct GuildCreate {
    pub id: u64,
    pub channels: Vec<Channel>,
    pub roles: Vec<Role>,
}

/// A reaction that was added or removed.
#[derive(Debug)]
pub struct Reaction {
    pub user_id: u64,
    pub channel_id: u64,
    pub message_id: u64,
    pub emoji: Emoji,
}

/// A new message.
#[derive(Debug)]
pub struct MessageCreate {
    pub id: u64,
    pub channel_id: u64,
    pub author: Author,
    pub content: String,
}

/// A changed message.  Partial updates leave the content out.
#[derive(Debug)]
pub struct MessageUpdate {
    pub id: u64,
    pub channel_id: u64,
    pub content: Option<String>,
}

/// A deleted message.
#[derive(Debug)]
pub struct MessageDelete {
    pub id: u64,
    pub channel_id: u64,
}

/// A gateway dispatch event.
#[derive(Debug)]
#[non_exhaustive]
pub enum Event {
    Ready(Ready),
    Resumed,
    GuildCreate(GuildCreate),
    ReactionAdd(Reaction),
    ReactionRemove(Reaction),
    MessageCreate(MessageCreate),
    MessageUpdate(MessageUpdate),
    MessageDelete(MessageDelete),
}

} // verus!
