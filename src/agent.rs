//! The persona, prompt composition, and the decisions of a conversation turn.
pub mod assistant;
pub mod chain;
pub mod personality;
