//! Which shell commands may run: rules that allow or deny by patterns.

pub mod decision;
pub mod matcher;
pub mod rules;
