//! Retrieval-augmented memory for a local personal assistant: a vector store
//! ranked by exact cosine similarity, a bounded conversation history, and a
//! persona whose state shapes every prompt.
pub mod agent;
pub mod cli;
mod clock;
pub mod error;
pub mod knowledge;
pub mod llm;
pub mod memory;
pub mod text;
pub mod utils;
