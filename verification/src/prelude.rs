//! The names that most users of the shell need.

pub use crate::data::shell::{
    ForegroundInputProcess, ForegroundInputProcessTarget, ForegroundProcess, ForegroundProcessGroup, Shell,
    ShellJob, ShellJobTarget, ShellSpawnMsg, ShellTarget, TerminalIoEndpoint,
};
pub use crate::language::{ShellIr, ShellLanguage, ShellParseError, SimpleShellLanguage};
pub use crate::plugins::{ShellIoSystems, ShellSystems};
pub use crate::process::{EndpointHandle, Entity, FileDescriptor, TerminalInputPayload};
pub use crate::terminal::{LineDiscipline, TermInput, TermInputMsg};
