//! The decision core of a terminal coding agent: turn authority, tool
//! dispatch, context budgeting, stream filtering and the engine's state
//! machine, each with a machine-checked contract.

pub mod text;
pub mod streaming;
pub mod json;
pub mod order;
pub mod models;
pub mod context;
pub mod dispatch;
pub mod names;
pub mod tool_catalog;
pub mod authority;
pub mod goal_loop;
pub mod ids;
pub mod logging;
pub mod ops;
pub mod session;
pub mod token_estimate_cache;
pub mod turn;
pub mod lsp;
pub mod paths;
pub mod tool_parser;
pub mod execpolicy;
pub mod eval;
pub mod engine;
pub mod deepseek_theme;
pub mod events;
pub mod llm_client;
pub mod laws;
