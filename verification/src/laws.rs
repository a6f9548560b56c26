//! What the parts of the agent promise: facts about their results that hold for
//! all inputs.

pub mod calls;
pub mod catalog;
pub mod consent;
pub mod evaluation;
pub mod parsing;
pub mod policy;
pub mod results;
pub mod search;
pub mod servers;
pub mod streams;
pub mod texts;
pub mod told;
pub mod turns;
