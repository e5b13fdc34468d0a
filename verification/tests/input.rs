use q_shell::process::{EndpointHandle, FileDescriptor, TerminalInputPayload};
use q_shell::systems::input::{deliver_input, keyboard_input, process_line_input, Key, KeyboardEvent};
use q_shell::terminal::{LineDiscipline, TermInput};

const TERMINAL: u64 = 1;
const SHELL: u64 = 2;

fn canonical() -> LineDiscipline {
    LineDiscipline::Canonical { buffer: String::new() }
}

fn terminal_handle() -> EndpointHandle {
    EndpointHandle { entity: TERMINAL, terminal: true }
}

#[test]
fn canonical_input_echoes_and_reaches_the_shell_process() {
    let mut discipline = canonical();
    let mut echo = Vec::new();
    let mut delivered = Vec::new();
    for input in [TermInput::Text("echo hello".to_owned()), TermInput::Submit] {
        let effect = process_line_input(&mut discipline, &input);
        if let Some(bytes) = effect.echo {
            echo.extend(bytes);
        }
        if let Some(payload) = effect.deliver {
            let msg = deliver_input(TERMINAL, Some(SHELL), Some(terminal_handle()), payload)
                .expect("the submitted line should reach shell stdin");
            assert_eq!(msg.process, SHELL);
            assert_eq!(msg.fd, FileDescriptor::stdin());
            delivered.push(msg.payload);
        }
    }
    assert_eq!(delivered.len(), 1);
    assert_eq!(delivered[0], TerminalInputPayload::Bytes(b"echo hello\n".to_vec()));
    assert!(matches!(&discipline, LineDiscipline::Canonical { buffer } if buffer.is_empty()));
    assert_eq!(echo, b"echo hello\r\n");
}

#[test]
fn canonical_eof_flushes_text_then_signals_eof_when_empty() {
    let mut discipline = canonical();
    let mut delivered = Vec::new();
    for input in [TermInput::Text("partial".to_owned()), TermInput::Eof, TermInput::Eof] {
        if let Some(payload) = process_line_input(&mut discipline, &input).deliver {
            delivered.push(payload);
        }
    }
    assert_eq!(delivered.len(), 2);
    assert_eq!(delivered[0], TerminalInputPayload::Bytes(b"partial".to_vec()));
    assert_eq!(delivered[1], TerminalInputPayload::Eof);
}

#[test]
fn erase_removes_the_last_character_and_echoes_a_rubout() {
    let mut discipline = canonical();
    process_line_input(&mut discipline, &TermInput::Text("ab".to_owned()));
    let effect = process_line_input(&mut discipline, &TermInput::Erase);
    assert_eq!(effect.echo, Some(b"\x08 \x08".to_vec()));
    assert_eq!(discipline, LineDiscipline::Canonical { buffer: "a".to_owned() });
}

#[test]
fn erase_on_an_empty_line_does_nothing() {
    let mut discipline = canonical();
    let effect = process_line_input(&mut discipline, &TermInput::Erase);
    assert_eq!(effect.echo, None);
    assert_eq!(effect.deliver, None);
    assert_eq!(discipline, canonical());
}

#[test]
fn erase_removes_a_whole_multibyte_character() {
    let mut discipline = canonical();
    process_line_input(&mut discipline, &TermInput::Text("hé".to_owned()));
    process_line_input(&mut discipline, &TermInput::Erase);
    let effect = process_line_input(&mut discipline, &TermInput::Submit);
    assert_eq!(effect.deliver, Some(TerminalInputPayload::Bytes(b"h\n".to_vec())));
}

#[test]
fn raw_discipline_ignores_input() {
    let mut discipline = LineDiscipline::Raw;
    let effect = process_line_input(&mut discipline, &TermInput::Text("x".to_owned()));
    assert_eq!(effect.echo, None);
    assert_eq!(effect.deliver, None);
    assert_eq!(discipline, LineDiscipline::Raw);
}

#[test]
fn unsupported_input_leaves_the_line_alone() {
    let mut discipline = LineDiscipline::Canonical { buffer: "ls".to_owned() };
    let effect = process_line_input(&mut discipline, &TermInput::Unsupported);
    assert_eq!(effect.echo, None);
    assert_eq!(discipline, LineDiscipline::Canonical { buffer: "ls".to_owned() });
}

#[test]
fn redirected_stdin_discards_terminal_input() {
    let other = EndpointHandle { entity: 9, terminal: true };
    assert!(deliver_input(TERMINAL, Some(SHELL), Some(other), TerminalInputPayload::Eof).is_none());
    let not_terminal = EndpointHandle { entity: TERMINAL, terminal: false };
    assert!(deliver_input(TERMINAL, Some(SHELL), Some(not_terminal), TerminalInputPayload::Eof).is_none());
    assert!(deliver_input(TERMINAL, None, Some(terminal_handle()), TerminalInputPayload::Eof).is_none());
    assert!(deliver_input(TERMINAL, Some(SHELL), None, TerminalInputPayload::Eof).is_none());
}

fn press(key: Key) -> KeyboardEvent {
    KeyboardEvent { pressed: true, key }
}

#[test]
fn keyboard_maps_keys_to_terminal_input() {
    let events = vec![
        press(Key::Character("e".to_owned())),
        KeyboardEvent { pressed: false, key: Key::Character("x".to_owned()) },
        press(Key::Space),
        press(Key::Other),
        press(Key::Backspace),
        press(Key::Enter),
    ];
    let msgs = keyboard_input(Some(TERMINAL), true, false, &events);
    let inputs: Vec<TermInput> = msgs.iter().map(|m| m.input.clone()).collect();
    assert_eq!(
        inputs,
        vec![
            TermInput::Text("e".to_owned()),
            TermInput::Text(" ".to_owned()),
            TermInput::Erase,
            TermInput::Submit,
        ]
    );
    assert!(msgs.iter().all(|m| m.term == TERMINAL));
}

#[test]
fn control_d_ends_input_in_either_case() {
    let events = vec![press(Key::Character("d".to_owned())), press(Key::Character("D".to_owned()))];
    let msgs = keyboard_input(Some(TERMINAL), true, true, &events);
    assert_eq!(msgs.len(), 2);
    assert!(msgs.iter().all(|m| m.input == TermInput::Eof));
    let plain = keyboard_input(Some(TERMINAL), true, false, &events);
    assert_eq!(plain[0].input, TermInput::Text("d".to_owned()));
    let other = keyboard_input(Some(TERMINAL), true, true, &vec![press(Key::Character("c".to_owned()))]);
    assert_eq!(other[0].input, TermInput::Text("c".to_owned()));
}

#[test]
fn keyboard_without_a_shell_terminal_is_ignored() {
    let events = vec![press(Key::Enter)];
    assert!(keyboard_input(None, true, false, &events).is_empty());
    assert!(keyboard_input(Some(TERMINAL), false, false, &events).is_empty());
}

#[test]
fn several_texts_are_delivered_as_one_line() {
    let mut discipline = LineDiscipline::Canonical { buffer: "> ".to_owned() };
    let mut echo = Vec::new();
    let mut delivered = Vec::new();
    for input in [
        TermInput::Text("ec".to_owned()),
        TermInput::Text("ho".to_owned()),
        TermInput::Text(" hé".to_owned()),
        TermInput::Submit,
    ] {
        let effect = process_line_input(&mut discipline, &input);
        echo.extend(effect.echo.unwrap_or_default());
        delivered.extend(effect.deliver);
    }
    assert_eq!(echo, "echo hé\r\n".as_bytes());
    assert_eq!(delivered, vec![TerminalInputPayload::Bytes("> echo hé\n".as_bytes().to_vec())]);
    assert_eq!(discipline, canonical());
}
