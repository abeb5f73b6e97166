//! A lightweight WebSocket (RFC 6455) client.
pub mod error;
pub mod fragment_laws;
pub mod frame;
pub mod frame_laws;
pub mod handshake;
pub mod handshake_laws;
pub mod io;
pub mod laws;
pub mod response_law;
pub mod proto;
pub mod read_buf;
pub mod read_laws;
pub mod rng;
pub mod send_buf;
pub mod send_laws;
pub mod socket_laws;
pub mod websocket;
pub mod wire_laws;
