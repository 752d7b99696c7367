//! Alias containers: named sets of shell aliases that a user creates, switches
//! between and tears down. The library decides what each command does given a
//! snapshot of the active-container variable and of the stored containers, and
//! produces the shell statements that the invoking shell evaluates.

pub mod text;
pub mod shell;
pub mod codec;
pub mod names;
pub mod commands;
pub mod laws;
