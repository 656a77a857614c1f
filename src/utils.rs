//! Helpers on file paths.
pub mod file;
