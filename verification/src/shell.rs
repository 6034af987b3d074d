//! The tracker as a shell program: what each command does, step by step.

pub mod entry;
pub mod handlers;
