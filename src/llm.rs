//! The shapes exchanged with the chat backend.
pub mod types;
