use q_shell::data::shell::{
    ForegroundInputProcess, ForegroundInputProcessTarget, ForegroundProcess, Shell, ShellJob, ShellSpawnMsg,
    ShellTarget,
};
use q_shell::process::{EndpointHandle, EndpointWriteMsg, FileDescriptor, Sig, TerminalInputPayload};
use q_shell::systems::io::{
    backfill_terminal_foreground, clear_process_foreground, fallback_to_shell_foreground, hang_up_terminal,
    route_terminal_replies, set_process_foreground, set_shell_foreground, write_terminal_output,
    ReplyRoute,
};
use q_shell::systems::spawn::accept_spawn;
use q_shell::terminal::{VtForegroundProcess, VtForegroundProcessTarget, VtReplyMsg};

const TERMINAL: u64 = 1;
const SHELL: u64 = 2;
const PROCESS: u64 = 3;

fn terminal_handle() -> EndpointHandle {
    EndpointHandle { entity: TERMINAL, terminal: true }
}

#[test]
fn process_output_reaches_terminal_processing_in_the_same_update() {
    let writes = vec![(
        EndpointWriteMsg { process: PROCESS, endpoint: terminal_handle(), payload: b"hello".to_vec() },
        true,
    )];
    let out = write_terminal_output(&writes, true);
    assert_eq!(out.len(), 1);
    assert_eq!(out[0].term, TERMINAL);
    assert_eq!(out[0].from, Some(PROCESS));
    assert_eq!(out[0].bytes, b"hello");
}

#[test]
fn output_to_closed_or_foreign_endpoints_is_not_written() {
    let writes = vec![
        (EndpointWriteMsg { process: PROCESS, endpoint: terminal_handle(), payload: b"closed".to_vec() }, false),
        (
            EndpointWriteMsg {
                process: PROCESS,
                endpoint: EndpointHandle { entity: TERMINAL, terminal: false },
                payload: b"other".to_vec(),
            },
            true,
        ),
        (EndpointWriteMsg { process: SHELL, endpoint: terminal_handle(), payload: b"open".to_vec() }, true),
    ];
    let out = write_terminal_output(&writes, true);
    assert_eq!(out.len(), 1);
    assert_eq!(out[0].from, Some(SHELL));
    assert_eq!(out[0].bytes, b"open");
    assert!(write_terminal_output(&writes, false).is_empty());
}

#[test]
fn spawned_process_becomes_the_terminal_foreground_peer() {
    let shell = Shell::new(TERMINAL);
    let pending = accept_spawn(ShellSpawnMsg::new("test".to_owned(), SHELL), Some(&shell)).unwrap();
    let spawned = pending.spawn(Some(terminal_handle())).unwrap();
    let selection = spawned.input;
    assert_eq!(set_process_foreground(Some(&selection), Some(&shell)), Some(VtForegroundProcess(TERMINAL)));
}

#[test]
fn foreground_barrier_exposes_the_selected_process_before_programs() {
    // A process selected as input owner takes the terminal even though it
    // has no foreground group membership.
    let shell = Shell::new(TERMINAL);
    let selection = ForegroundInputProcess::new(SHELL);
    assert_eq!(set_process_foreground(Some(&selection), Some(&shell)), Some(VtForegroundProcess(TERMINAL)));
    assert_eq!(set_process_foreground(None, Some(&shell)), None);
    assert_eq!(set_process_foreground(Some(&selection), None), None);
}

#[test]
fn removing_foreground_membership_clears_input_selection_and_restores_shell() {
    let shell = Shell::new(TERMINAL);
    let membership = ForegroundProcess::new(SHELL);
    let selection = ForegroundInputProcess::new(SHELL);
    assert!(clear_process_foreground(Some(&membership), Some(&selection)));
    assert_eq!(
        fallback_to_shell_foreground(false, Some(&shell), true),
        Some(VtForegroundProcess(TERMINAL))
    );
    assert_eq!(fallback_to_shell_foreground(true, Some(&shell), true), None);
    assert_eq!(fallback_to_shell_foreground(false, Some(&shell), false), None);
}

#[test]
fn existing_foreground_selection_is_backfilled_on_plugin_registration() {
    let shells = vec![
        (SHELL, Shell::new(TERMINAL), Some(ForegroundInputProcessTarget::new(PROCESS))),
        (5, Shell::new(4), None),
    ];
    let peers = backfill_terminal_foreground(&shells);
    assert_eq!(peers, vec![(PROCESS, VtForegroundProcess(TERMINAL)), (5, VtForegroundProcess(4))]);
}

#[test]
fn new_shell_owns_its_terminal_foreground() {
    assert_eq!(set_shell_foreground(Some(&Shell::new(TERMINAL))), Some(VtForegroundProcess(TERMINAL)));
    assert_eq!(set_shell_foreground(None), None);
}

fn assert_terminal_close_sends_hup(despawn: bool) {
    let target = ShellTarget::new(SHELL);
    let jobs = vec![(PROCESS, ShellJob(SHELL)), (8, ShellJob(9))];
    let hang_up = hang_up_terminal(
        TERMINAL,
        Some(&target),
        Some(&VtForegroundProcessTarget(PROCESS)),
        true,
        &jobs,
    );
    let mut targets: Vec<u64> = hang_up
        .signals
        .iter()
        .filter(|signal| signal.signal == Sig::Hup && signal.term == TERMINAL)
        .map(|signal| signal.target)
        .collect();
    targets.sort();
    let mut expected = vec![SHELL, PROCESS];
    expected.sort();
    assert_eq!(targets, expected);
    assert_eq!(hang_up.clear_foreground, Some(PROCESS));
    let shell = Shell::new(TERMINAL);
    if despawn {
        // The despawned terminal takes its shell along: nothing to fall back to.
        assert_eq!(fallback_to_shell_foreground(false, None, false), None);
    } else {
        // Process cleanup must not restore foreground state on a closed endpoint.
        assert_eq!(fallback_to_shell_foreground(false, Some(&shell), false), None);
    }
}

#[test]
fn terminal_endpoint_removal_sends_hup_and_closes_descriptors() {
    assert_terminal_close_sends_hup(false);
}

#[test]
fn terminal_despawn_sends_hup_and_closes_descriptors() {
    assert_terminal_close_sends_hup(true);
}

#[test]
fn closing_a_terminal_without_a_shell_does_nothing() {
    let hang_up = hang_up_terminal(TERMINAL, None, Some(&VtForegroundProcessTarget(PROCESS)), true, &vec![]);
    assert_eq!(hang_up.clear_foreground, None);
    assert!(hang_up.signals.is_empty());
    let target = ShellTarget::new(SHELL);
    let silent = hang_up_terminal(TERMINAL, Some(&target), None, false, &vec![(PROCESS, ShellJob(SHELL))]);
    assert!(silent.signals.is_empty());
}

#[test]
fn terminal_reply_reaches_shell_process_when_no_child_is_foreground() {
    let routes = vec![ReplyRoute {
        reply: VtReplyMsg { term: TERMINAL, bytes: b"shell reply".to_vec() },
        foreground: Some(SHELL),
        stdin: Some(terminal_handle()),
    }];
    let input = route_terminal_replies(&routes, true);
    assert_eq!(input.len(), 1);
    assert_eq!(input[0].process, SHELL);
    assert_eq!(input[0].fd, FileDescriptor::stdin());
    assert_eq!(input[0].payload, TerminalInputPayload::Bytes(b"shell reply".to_vec()));
}

#[test]
fn terminal_reply_reaches_foreground_process_on_the_next_first_pass() {
    let routes = vec![
        ReplyRoute {
            reply: VtReplyMsg { term: TERMINAL, bytes: b"reply".to_vec() },
            foreground: Some(PROCESS),
            stdin: Some(terminal_handle()),
        },
        ReplyRoute {
            reply: VtReplyMsg { term: TERMINAL, bytes: b"redirected".to_vec() },
            foreground: Some(PROCESS),
            stdin: Some(EndpointHandle { entity: 9, terminal: true }),
        },
    ];
    let input = route_terminal_replies(&routes, true);
    assert_eq!(input.len(), 1);
    assert_eq!(input[0].process, PROCESS);
    assert_eq!(input[0].payload, TerminalInputPayload::Bytes(b"reply".to_vec()));
    assert!(route_terminal_replies(&routes, false).is_empty());
}
