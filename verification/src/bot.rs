//! The bot framework: references, state, the host that handlers act through,
//! and the runner.
pub mod config;
pub mod config_laws;
pub mod host;
pub mod host_laws;
pub mod logger;
pub mod names;
pub mod plan_laws;
pub mod refs;
pub mod runner;
pub mod session_laws;
pub mod sessions;
pub mod state;
pub mod state_laws;
pub mod tracker;
pub mod tsv;
pub mod types;
