//! The Discord gateway and HTTP API.
pub mod api;
pub mod body_laws;
pub mod chunk_laws;
pub mod chunked;
pub mod client;
pub mod connect;
pub mod connect_laws;
pub mod error;
pub mod gateway;
pub mod gateway_laws;
pub mod heartbeat;
pub mod http;
pub mod http_laws;
pub mod intent;
pub mod message;
pub mod response;
pub mod session;
pub mod session_laws;
