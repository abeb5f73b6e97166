//! A Discord bot framework: a WebSocket client, the Discord gateway and HTTP
//! API rules on top of it, and the bot runner with its persistent state.
//!
//! The library performs no I/O of its own.  Every operation that has to talk
//! to a stream is a task: it asks for one stream call at a time and is resumed
//! with what that call returned.
pub mod bot;
pub mod bots;
pub mod bytes;
pub mod digest;
pub mod discord;
pub mod ext;
pub mod json;
pub mod text;
pub mod text_laws;
pub mod ws;
