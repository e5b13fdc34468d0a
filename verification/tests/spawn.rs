use std::collections::HashMap;

use q_shell::plugins::DefaultShellProcess;
use q_shell::process::ProcessSpec;
use q_shell::data::shell::{ForegroundProcess, Shell, ShellJob, ShellSpawnMsg};
use q_shell::process::{EndpointHandle, StandardDescriptors};
use q_shell::systems::spawn::{accept_spawn, configure_shell_process_io, endpoint_to_insert, spawn_process};

const TERMINAL: u64 = 1;
const SHELL: u64 = 2;

fn assert_standard_descriptors(descriptors: &StandardDescriptors, handle: EndpointHandle) {
    for fd in [descriptors.stdin, descriptors.stdout, descriptors.stderr] {
        let endpoint = fd.expect("the standard descriptor should be open");
        assert_eq!(endpoint.entity, TERMINAL);
        assert_eq!(endpoint, handle);
    }
}

#[test]
fn shell_and_child_use_the_terminal_endpoint_for_standard_descriptors() {
    let handle = EndpointHandle { entity: TERMINAL, terminal: true };
    let shell = Shell::new(TERMINAL);
    assert_eq!(endpoint_to_insert(Some(&shell), false), Some(TERMINAL));

    let mut shell_descriptors = StandardDescriptors::closed();
    configure_shell_process_io(&mut shell_descriptors, Some(handle));
    assert_standard_descriptors(&shell_descriptors, handle);

    let pending = accept_spawn(ShellSpawnMsg::new("test".to_owned(), SHELL), Some(&shell))
        .expect("the shell should accept the spawn request");
    let child = pending.spawn(Some(handle)).expect("the shell should spawn one child process");
    assert_eq!(child.job, ShellJob(SHELL));
    assert_eq!(child.foreground, ForegroundProcess(SHELL));
    assert_eq!(child.input.shell(), SHELL);
    assert_eq!(child.process.prog, "test");
    assert_standard_descriptors(&child.descriptors, handle);
}

#[test]
fn shell_plugin_accepts_a_custom_io_component() {
    let custom = EndpointHandle { entity: TERMINAL, terminal: false };
    let shell = Shell::new(TERMINAL);
    let pending = accept_spawn(
        ShellSpawnMsg::with_args("test".to_owned(), SHELL, vec!["a".to_owned()]),
        Some(&shell),
    )
    .unwrap();
    let child = pending.spawn(Some(custom)).unwrap();
    assert_standard_descriptors(&child.descriptors, custom);
    assert_eq!(child.process.argv, vec!["a".to_owned()]);
}

#[test]
fn shell_attaches_io_before_plugin_registration() {
    let shell = Shell::new(TERMINAL);
    assert_eq!(endpoint_to_insert(Some(&shell), true), None);
    assert_eq!(endpoint_to_insert(None, false), None);
    let mut descriptors = StandardDescriptors::closed();
    configure_shell_process_io(&mut descriptors, Some(EndpointHandle { entity: TERMINAL, terminal: false }));
    assert!(descriptors.stdin.is_some());
}

#[test]
fn unavailable_terminal_endpoint_prevents_process_spawn() {
    let shell = Shell::new(TERMINAL);
    let pending = accept_spawn(ShellSpawnMsg::new("test".to_owned(), SHELL), Some(&shell)).unwrap();
    assert!(pending.spawn(None).is_none());
}

#[test]
fn endpoint_removal_before_deferred_spawn_does_not_leave_stale_descriptors() {
    let shell = Shell::new(TERMINAL);
    let pending = accept_spawn(ShellSpawnMsg::new("test".to_owned(), SHELL), Some(&shell)).unwrap();
    assert!(pending.spawn(None).is_none());
    let mut descriptors = StandardDescriptors::closed();
    configure_shell_process_io(&mut descriptors, None);
    assert_eq!(descriptors, StandardDescriptors::closed());
}

#[test]
fn spawn_requests_for_a_missing_shell_are_dropped() {
    assert!(accept_spawn(ShellSpawnMsg::new("test".to_owned(), SHELL), None).is_none());
}

#[test]
fn one_spawn_per_request_to_a_shell_in_order() {
    let shell = Shell::new(TERMINAL);
    let other = Shell::new(9);
    let pending = spawn_process(vec![
        (ShellSpawnMsg::new("first".to_owned(), SHELL), Some(shell)),
        (ShellSpawnMsg::new("dropped".to_owned(), 5), None),
        (ShellSpawnMsg::new("second".to_owned(), 8), Some(other)),
    ]);
    assert_eq!(pending.len(), 2);
    assert_eq!(pending[0].prog, "first");
    assert_eq!(pending[0].terminal, TERMINAL);
    assert_eq!(pending[1].prog, "second");
    assert_eq!(pending[1].shell, 8);
    assert_eq!(pending[1].terminal, 9);
}

#[test]
fn new_shell_runs_the_process_template() {
    let mut environ = HashMap::new();
    environ.insert("TERM".to_owned(), "vt100".to_owned());
    let template = DefaultShellProcess::new(ProcessSpec {
        prog: "test".to_owned(),
        argv: vec!["-i".to_owned()],
        environ,
    });
    let process = template.process_for_shell(false).expect("a new shell should get the template process");
    assert_eq!(process, template.default_process);
    assert!(template.process_for_shell(true).is_none());
}
