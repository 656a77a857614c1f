//! Conversation memory: the bounded history of turns and its storage paths.
pub mod conversation;
pub mod fifo;
pub mod storage;
