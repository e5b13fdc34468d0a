//! The shell's components and messages.

pub mod shell;
