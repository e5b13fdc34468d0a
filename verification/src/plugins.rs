//! The shell's scheduling phases and plugin installation.

use vstd::prelude::*;

use crate::process::ProcessSpec;

verus! {

/// Ordered shell-management phases.
#[derive(Clone, Copy, Debug, PartialEq, Eq, Hash, PartialOrd, Ord, Structural)]
pub enum ShellSystems {
    /// Spawn requested shell jobs.
    Spawn,
    /// Apply foreground job-control transitions.
    Foreground,
}

/// Ordered shell I/O integration phases.
#[derive(Clone, Copy, Debug, PartialEq, Eq, Hash, PartialOrd, Ord, Structural)]
pub enum ShellIoSystems {
    /// Project shell foreground state into the selected I/O backend.
    SyncForeground,
    /// Clean relationships belonging to removed processes.
    Cleanup,
    /// Translate routed process output into backend writes.
    ProcessOutput,
    /// Translate backend replies into process input.
    TerminalReplies,
}

/// The process template used for newly created shells.
#[derive(Debug, PartialEq, Eq)]
pub struct DefaultShellProcess {
    pub default_process: ProcessSpec,
}

impl DefaultShellProcess {
    pub fn new(default_process: ProcessSpec) -> (d: Self)
        ensures
            d.default_process == default_process,
    {
        DefaultShellProcess { default_process }
    }

    /// The process a new shell runs: the template, unless the shell
    /// entity already is a process.
    pub fn process_for_shell(&self, already_a_process: bool) -> (p: Option<ProcessSpec>)
        ensures
            p is Some <==> !already_a_process,
            p matches Some(q) ==> q@ == self.default_process@,
    {
        if already_a_process {
            None
        } else {
            Some(self.default_process.duplicate())
        }
    }
}

/// Which of the plugins that a shell builds on are already installed.
#[derive(Clone, Copy, Debug, PartialEq, Eq, Structural)]
pub struct InstalledPlugins {
    pub process: bool,
    pub terminal: bool,
    pub backend: bool,
    pub keyboard: bool,
}

/// The plugins that installing the shell plugin adds: each one that is not
/// installed yet, and none twice.
#[derive(Clone, Copy, Debug, PartialEq, Eq, Structural)]
pub struct ShellPluginPlan {
    pub add_process: bool,
    pub add_terminal: bool,
    pub add_backend: bool,
    pub add_keyboard: bool,
}

pub fn shell_plugin_plan(installed: InstalledPlugins) -> (plan: ShellPluginPlan)
    ensures
        plan.add_process == !installed.process,
        plan.add_terminal == !installed.terminal,
        plan.add_backend == !installed.backend,
        plan.add_keyboard == !installed.keyboard,
{
    ShellPluginPlan {
        add_process: !installed.process,
        add_terminal: !installed.terminal,
        add_backend: !installed.backend,
        add_keyboard: !installed.keyboard,
    }
}

} // verus!
