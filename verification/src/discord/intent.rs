//! Gateway intent bitflags for the IDENTIFY payload.
use vstd::prelude::*;

verus! {

pub const GUILDS: u64 = 0x1;

pub const GUILD_MEMBERS: u64 = 0x2;

pub const GUILD_MODERATION: u64 = 0x4;

pub const GUILD_EXPRESSIONS: u64 = 0x8;

pub const GUILD_INTEGRATIONS: u64 = 0x10;

pub const GUILD_WEBHOOKS: u64 = 0x20;

pub const GUILD_INVITES: u64 = 0x40;

pub const GUILD_VOICE_STATES: u64 = 0x80;

pub const GUILD_PRESENCES: u64 = 0x100;

pub const GUILD_MESSAGES: u64 = 0x200;

pub const GUILD_MESSAGE_REACTIONS: u64 = 0x400;

pub const GUILD_MESSAGE_TYPING: u64 = 0x800;

pub const DIRECT_MESSAGES: u64 = 0x1000;

pub const DIRECT_MESSAGE_REACTIONS: u64 = 0x2000;

pub const DIRECT_MESSAGE_TYPING: u64 = 0x4000;

pub const MESSAGE_CONTENT: u64 = 0x8000;

pub const GUILD_SCHEDULED_EVENTS: u64 = 0x10000;

pub const AUTO_MODERATION_CONFIGURATION: u64 = 0x100000;

pub const AUTO_MODERATION_EXECUTION: u64 = 0x200000;

pub const GUILD_MESSAGE_POLLS: u64 = 0x1000000;

pub const DIRECT_MESSAGE_POLLS: u64 = 0x2000000;

} // verus!
