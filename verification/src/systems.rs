//! The shell's systems, each written as a decision from the values it reads
//! to what it writes.

pub mod input;
pub mod interpreter;
pub mod io;
pub mod lifecycle;
pub mod spawn;
