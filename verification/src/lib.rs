//! Process-backed shells: the decision logic of a shell that runs on an
//! entity-component process layer and a virtual terminal.
//!
//! Entities are identified by their 64-bit ids; the types here hold as plain
//! values what the shell reads from the world, and the functions return what
//! the shell does about it.

pub mod language;
pub mod process;
pub mod terminal;
pub mod data;
pub mod plugins;
pub mod prelude;
pub mod systems;
