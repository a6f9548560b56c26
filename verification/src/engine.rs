//! The engine: what it does with each request of its host, and what it tells.

pub mod approval;
pub mod state_block;
pub mod rules;
pub mod execution;
pub mod goal;
pub mod metadata;
pub mod state;
pub mod compaction;
pub mod prompt;
pub mod recovery;
pub mod shell;
pub mod requests;
pub mod mailbox;
pub mod tool_setup;
pub mod turns;
