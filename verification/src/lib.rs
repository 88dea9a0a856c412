//! The verified core of favetto, an orchestrator for external coding agents.
//!
//! The daemon around this library owns sockets, pseudo-terminals and the
//! database. Everything it decides along the way stands here: how an agent's
//! output becomes normalized events, which command a launch runs, when a task
//! counts as waiting for its user.
pub mod agent_hooks;
pub mod agents;
pub mod attention;
pub mod attention_laws;
pub mod catalog_watch;
pub mod chat;
pub mod cli;
pub mod client;
pub mod config;
pub mod desk_laws;
pub mod ids;
pub mod json;
pub mod lines;
pub mod model;
pub mod paths;
pub mod table;
pub mod text;
pub mod text_laws;
