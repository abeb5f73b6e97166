//! Bots.
pub mod echo;
pub mod greeter;
pub mod kippe;
pub mod laws;
pub mod logger;
pub mod sentinel;
pub mod shibboleth;
