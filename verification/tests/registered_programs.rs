use q_shell::data::shell::ShellJobTarget;
use q_shell::language::{ShellIr, ShellLanguage, ShellParseError, SimpleShellLanguage};
use q_shell::process::{FileDescriptor, TerminalInputPayload};
use q_shell::systems::interpreter::{
    decode_line, dispatch_line, run_shell, DecodedLine, ShellAction, ShellFrame, ShellPhase,
};

const SHELL: u64 = 2;

fn writes(actions: &[ShellAction]) -> Vec<(FileDescriptor, String)> {
    actions
        .iter()
        .filter_map(|a| match a {
            ShellAction::Write(w) => Some((w.fd, String::from_utf8(w.bytes.clone()).unwrap())),
            _ => None,
        })
        .collect()
}

fn prompts(actions: &[ShellAction]) -> usize {
    writes(actions).iter().filter(|(fd, text)| *fd == FileDescriptor::stdout() && text == "$ ").count()
}

/// Runs one frame of a ready interpreter on a submitted line; programs in
/// `registered` are the ones that exist.
fn submit<L: ShellLanguage>(language: &L, line: &str, registered: &[&str]) -> ShellFrame {
    let mut bytes = line.as_bytes().to_vec();
    bytes.push(b'\n');
    let payload = TerminalInputPayload::Bytes(bytes);
    let lookup = |name: &str| registered.contains(&name);
    let frame = run_shell(language, &lookup, SHELL, true, Some(ShellPhase::Ready), None, Some(&payload));
    assert!(frame.consumed_input);
    frame
}

#[test]
fn default_plugin_dispatches_registered_programs_and_waits_for_jobs() {
    let none = |_: &str| false;
    let start = run_shell(&SimpleShellLanguage, &none, SHELL, true, None, None, None);
    assert_eq!(start.actions[0], ShellAction::InsertExecution);
    assert_eq!(prompts(&start.actions), 1);
    assert!(!start.consumed_input);

    let frame = submit(&SimpleShellLanguage, "echo \"hello world\" a\\ b", &["echo"]);
    assert_eq!(prompts(&frame.actions), 0);
    match &frame.actions[0] {
        ShellAction::Spawn(msg) => {
            assert_eq!(msg.prog, "echo");
            assert_eq!(msg.shell, SHELL);
            assert_eq!(msg.argv, vec!["hello world".to_owned(), "a b".to_owned()]);
            assert!(msg.environ.is_empty());
        }
        other => panic!("expected a spawn, got {other:?}"),
    }
    assert_eq!(frame.actions[1], ShellAction::SetPhase(ShellPhase::Waiting));

    let jobs = ShellJobTarget::new(vec![7]);
    let queued = TerminalInputPayload::Bytes(b"echo again\n".to_vec());
    let waiting = run_shell(&SimpleShellLanguage, &none, SHELL, true, Some(ShellPhase::Waiting), Some(&jobs), Some(&queued));
    assert!(waiting.actions.is_empty());
    assert!(!waiting.consumed_input);

    let done = ShellJobTarget::new(vec![]);
    let resumed = run_shell(&SimpleShellLanguage, &none, SHELL, true, Some(ShellPhase::Waiting), Some(&done), None);
    assert_eq!(resumed.actions[0], ShellAction::SetPhase(ShellPhase::Ready));
    assert_eq!(prompts(&resumed.actions), 1);
    let resumed = run_shell(&SimpleShellLanguage, &none, SHELL, true, Some(ShellPhase::Waiting), None, None);
    assert_eq!(prompts(&resumed.actions), 1);
}

#[test]
fn errors_and_empty_lines_redraw_without_spawning() {
    let missing = submit(&SimpleShellLanguage, "missing", &["echo"]).actions;
    assert_eq!(
        writes(&missing),
        vec![
            (FileDescriptor::stderr(), "missing: command not found\r\n".to_owned()),
            (FileDescriptor::stdout(), "$ ".to_owned()),
        ]
    );
    assert!(!missing.iter().any(|a| matches!(a, ShellAction::Spawn(_))));

    let quote = submit(&SimpleShellLanguage, "echo '", &["echo"]).actions;
    assert_eq!(
        writes(&quote),
        vec![
            (FileDescriptor::stderr(), "shell: unmatched quote\r\n".to_owned()),
            (FileDescriptor::stdout(), "$ ".to_owned()),
        ]
    );

    let empty = submit(&SimpleShellLanguage, "  ", &["echo"]).actions;
    assert_eq!(writes(&empty), vec![(FileDescriptor::stdout(), "$ ".to_owned())]);
    assert_eq!(empty.len(), 1);
}

#[test]
fn eof_removes_the_shell_process() {
    let none = |_: &str| false;
    let frame = run_shell(
        &SimpleShellLanguage,
        &none,
        SHELL,
        true,
        Some(ShellPhase::Ready),
        None,
        Some(&TerminalInputPayload::Eof),
    );
    assert_eq!(frame.actions, vec![ShellAction::RemoveProcess]);
    assert!(frame.consumed_input);
}

#[derive(Debug)]
struct EchoOnlyLanguage;

impl ShellLanguage for EchoOnlyLanguage {
    fn parse(&self, source: &str) -> Result<ShellIr, ShellParseError> {
        Ok(ShellIr::Command { program: "echo".into(), arguments: vec![source.trim().into()] })
    }
}

#[test]
fn a_custom_language_uses_the_same_registered_program_path() {
    let actions = submit(&EchoOnlyLanguage, "anything at all", &["echo"]).actions;
    match &actions[0] {
        ShellAction::Spawn(msg) => assert_eq!(msg.argv, vec!["anything at all".to_owned()]),
        other => panic!("expected a spawn, got {other:?}"),
    }
    assert_eq!(actions[1], ShellAction::SetPhase(ShellPhase::Waiting));
}

#[test]
fn invalid_utf8_is_reported_to_stderr() {
    let none = |_: &str| false;
    let payload = TerminalInputPayload::Bytes(vec![0xff]);
    let frame = run_shell(&SimpleShellLanguage, &none, SHELL, true, Some(ShellPhase::Ready), None, Some(&payload));
    assert_eq!(
        writes(&frame.actions),
        vec![
            (FileDescriptor::stderr(), "shell: input is not valid UTF-8\r\n".to_owned()),
            (FileDescriptor::stdout(), "$ ".to_owned()),
        ]
    );
}

#[test]
fn shells_not_running_the_shell_program_are_left_alone() {
    let none = |_: &str| false;
    let payload = TerminalInputPayload::Eof;
    let frame = run_shell(&SimpleShellLanguage, &none, SHELL, false, Some(ShellPhase::Ready), None, Some(&payload));
    assert!(frame.actions.is_empty());
    assert!(!frame.consumed_input);
}

#[test]
fn a_ready_shell_without_input_does_nothing() {
    let none = |_: &str| false;
    let frame = run_shell(&SimpleShellLanguage, &none, SHELL, true, Some(ShellPhase::Ready), None, None);
    assert!(frame.actions.is_empty());
    assert!(!frame.consumed_input);
}

#[test]
fn decode_line_tells_end_of_input_bad_bytes_and_text_apart() {
    assert_eq!(decode_line(&TerminalInputPayload::Eof), DecodedLine::EndOfInput);
    assert_eq!(decode_line(&TerminalInputPayload::Bytes(vec![0xc3])), DecodedLine::NotUtf8);
    assert_eq!(
        decode_line(&TerminalInputPayload::Bytes("héllo".as_bytes().to_vec())),
        DecodedLine::Source("héllo".to_owned())
    );
}

#[test]
fn dispatch_line_spawns_only_registered_commands() {
    let command = || Ok(ShellIr::Command { program: "ls".into(), arguments: vec!["-l".into()] });
    let spawned = dispatch_line(SHELL, command(), true);
    assert!(matches!(spawned[0], ShellAction::Spawn(_)));
    let unknown = dispatch_line(SHELL, command(), false);
    assert_eq!(prompts(&unknown), 1);
    assert_eq!(dispatch_line(SHELL, Ok(ShellIr::Empty), true).len(), 1);
}
