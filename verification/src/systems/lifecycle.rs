//! Shell relationship cleanup for removed processes.

use vstd::prelude::*;

use crate::data::shell::{selections_in_groups, ForegroundInputProcess, ForegroundProcess, ShellJob};
use crate::process::Entity;
use crate::terminal::VtForegroundProcess;

verus! {

/// The shell relations that a process entity carries.
#[derive(Clone, Copy, Debug, PartialEq, Eq, Structural)]
pub struct ShellRelations {
    pub job: Option<ShellJob>,
    pub foreground: Option<ForegroundProcess>,
    pub input: Option<ForegroundInputProcess>,
    pub vt_foreground: Option<VtForegroundProcess>,
}

/// A process that stops being a process leaves every shell relation: it is
/// no longer a job, a foreground member, the input owner or a terminal's
/// foreground peer.
pub fn cleanup_removed_process(relations: &mut ShellRelations)
    ensures
        final(relations).job is None,
        final(relations).foreground is None,
        final(relations).input is None,
        final(relations).vt_foreground is None,
{
    relations.job = None;
    relations.foreground = None;
    relations.input = None;
    relations.vt_foreground = None;
}

/// Cleaning up a removed process keeps every selected input owner inside
/// the group it is selected for.
pub proof fn cleanup_keeps_selections_in_groups(
    membership: Map<Entity, Entity>,
    selection: Map<Entity, Entity>,
    process: Entity,
)
    requires
        selections_in_groups(membership, selection),
    ensures
        selections_in_groups(membership.remove(process), selection.remove(process)),
{
}

} // verus!
