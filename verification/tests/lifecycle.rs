use q_shell::data::shell::{
    ForegroundInputProcess, ForegroundJobError, ForegroundProcess, ForegroundProcessGroup, Shell, ShellJob,
    ForegroundInputProcessTarget, plan_foreground_job,
};
use q_shell::plugins::{shell_plugin_plan, InstalledPlugins};
use q_shell::systems::io::{clear_process_foreground, fallback_to_shell_foreground};
use q_shell::systems::lifecycle::{cleanup_removed_process, ShellRelations};
use q_shell::terminal::VtForegroundProcess;

const TERMINAL: u64 = 1;
const SHELL: u64 = 2;
const PROCESS: u64 = 3;

fn assert_process_cleanup(despawn: bool) {
    if !despawn {
        // A removed process keeps its entity: its shell relations are cleared.
        let mut relations = ShellRelations {
            job: Some(ShellJob(SHELL)),
            foreground: Some(ForegroundProcess::new(SHELL)),
            input: Some(ForegroundInputProcess::new(SHELL)),
            vt_foreground: Some(VtForegroundProcess(TERMINAL)),
        };
        assert!(clear_process_foreground(relations.foreground.as_ref(), relations.input.as_ref()));
        cleanup_removed_process(&mut relations);
        assert!(relations.job.is_none());
        assert!(relations.foreground.is_none());
        assert!(relations.input.is_none());
        assert!(relations.vt_foreground.is_none());
    }
    // Either way the shell has no input target left and regains its terminal.
    assert_eq!(
        fallback_to_shell_foreground(false, Some(&Shell::new(TERMINAL)), true),
        Some(VtForegroundProcess(TERMINAL))
    );
}

#[test]
fn process_removal_cleans_shell_relationships_and_restores_fallback() {
    assert_process_cleanup(false);
}

#[test]
fn process_despawn_cleans_shell_relationships_and_restores_fallback() {
    assert_process_cleanup(true);
}

#[test]
fn foreground_job_replaces_the_group_and_input_owner() {
    let group = ForegroundProcessGroup::new(vec![PROCESS]);
    let previous = ForegroundInputProcessTarget::new(PROCESS);
    let plan = plan_foreground_job(SHELL, Some(&group), Some(&previous), &vec![(5, true), (6, true)], Some(6))
        .unwrap();
    assert_eq!(plan.shell, SHELL);
    assert_eq!(plan.clear_members, vec![PROCESS]);
    assert_eq!(plan.clear_input, Some(PROCESS));
    assert_eq!(plan.members, vec![5, 6]);
    assert_eq!(plan.input, Some(6));
}

#[test]
fn foreground_job_refusals() {
    let group = ForegroundProcessGroup::new(vec![]);
    assert_eq!(
        plan_foreground_job(SHELL, None, None, &vec![(5, true)], None),
        Err(ForegroundJobError::MissingShell)
    );
    assert_eq!(
        plan_foreground_job(SHELL, Some(&group), None, &vec![(5, true), (6, false)], None),
        Err(ForegroundJobError::DeadProcess)
    );
    assert_eq!(
        plan_foreground_job(SHELL, Some(&group), None, &vec![(5, true)], Some(6)),
        Err(ForegroundJobError::InputOutsideGroup)
    );
    let empty = plan_foreground_job(SHELL, Some(&group), None, &vec![], None).unwrap();
    assert!(empty.members.is_empty());
    assert_eq!(empty.input, None);
}

#[test]
fn shell_plugin_adds_only_missing_plugins() {
    let plan = shell_plugin_plan(InstalledPlugins { process: true, terminal: false, backend: true, keyboard: false });
    assert!(!plan.add_process);
    assert!(plan.add_terminal);
    assert!(!plan.add_backend);
    assert!(plan.add_keyboard);
}
