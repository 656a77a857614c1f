//! The interactive shell's command language.
pub mod commands;
