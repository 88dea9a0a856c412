//! The external coding agents: how each is launched, and how its output is read.
pub mod agent;
pub mod api_laws;
pub mod book_laws;
pub mod call_laws;
pub mod claude;
pub mod configurable;
pub mod detect;
pub mod entry_laws;
pub mod find_laws;
pub mod launch_laws;
pub mod manager;
pub mod opencode;
pub mod pi;
pub mod plain_jsonl;
pub mod plain_laws;
pub mod product;
pub mod registry;
pub mod registry_laws;
pub mod screen_laws;
pub mod session_laws;
pub mod sessions;
pub mod state;
pub mod template_laws;
pub mod terminal;
pub mod terminal_laws;
pub mod terms;
pub mod vibe;
