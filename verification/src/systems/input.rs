//! Host-keyboard and terminal line-discipline integration.

use vstd::prelude::*;
use vstd::string::*;
use vstd::utf8::{decode_utf8, encode_utf8, encode_utf8_decode_utf8, encode_utf8_valid_utf8, valid_utf8};

use crate::process::{
    EndpointHandle, Entity, FileDescriptor, PayloadView, ProcessInputMsg, TerminalInputPayload,
};
use crate::terminal::{InputView, LineDiscipline, LineState, TermInput, TermInputMsg};

verus! {

/// The backspace-space-backspace sequence that erases one echoed character.
pub open spec fn erase_echo() -> Seq<u8> {
    seq![8u8, 32u8, 8u8]
}

/// The line break echoed when a line is submitted.
pub open spec fn submit_echo() -> Seq<u8> {
    seq![13u8, 10u8]
}

/// One step of a line discipline: the next state, the bytes echoed to the
/// terminal if any, and the payload delivered to the foreground process if any.
pub open spec fn line_step(state: LineState, input: InputView) -> (LineState, Option<Seq<u8>>, Option<PayloadView>) {
    match state {
        LineState::Raw => (LineState::Raw, None, None),
        LineState::Canonical(buffer) => match input {
            InputView::Text(text) => (LineState::Canonical(buffer + text), Some(encode_utf8(text)), None),
            InputView::Erase => if buffer.len() > 0 {
                (LineState::Canonical(buffer.drop_last()), Some(erase_echo()), None)
            } else {
                (LineState::Canonical(buffer), None, None)
            },
            InputView::Submit => (
                LineState::Canonical(Seq::empty()),
                Some(submit_echo()),
                Some(PayloadView::Bytes(encode_utf8(buffer).push(10u8))),
            ),
            InputView::Eof => (
                LineState::Canonical(Seq::empty()),
                None,
                Some(if buffer.len() == 0 { PayloadView::Eof } else { PayloadView::Bytes(encode_utf8(buffer)) }),
            ),
            InputView::Unsupported => (LineState::Canonical(buffer), None, None),
        },
    }
}

/// What one terminal input does: bytes echoed to the terminal, and a payload
/// for the terminal's foreground process.
#[derive(Debug, PartialEq, Eq)]
pub struct LineEffect {
    pub echo: Option<Vec<u8>>,
    pub deliver: Option<TerminalInputPayload>,
}

impl LineEffect {
    pub open spec fn echo_view(&self) -> Option<Seq<u8>> {
        match self.echo {
            Some(bytes) => Some(bytes@),
            None => None,
        }
    }

    pub open spec fn deliver_view(&self) -> Option<PayloadView> {
        match self.deliver {
            Some(payload) => Some(payload@),
            None => None,
        }
    }
}

/// Removes the last character of a string and returns it, or returns
/// `None` and leaves an empty string as it is.
fn pop_char(s: &mut String) -> (c: Option<char>)
    ensures
        old(s)@.len() == 0 ==> c is None && final(s)@ == old(s)@,
        old(s)@.len() > 0 ==> c == Some(old(s)@.last()) && final(s)@ == old(s)@.drop_last(),
{
    let n = s.as_str().unicode_len();
    if n == 0 {
        return None;
    }
    let c = s.as_str().get_char(n - 1);
    let rest = String::from_str(s.as_str().substring_char(0, n - 1));
    assert(rest@ =~= old(s)@.drop_last());
    *s = rest;
    Some(c)
}

/// The UTF-8 bytes of a string.
fn utf8_bytes(s: &String) -> (bytes: Vec<u8>)
    ensures
        bytes@ == encode_utf8(s@),
{
    s.as_str().as_bytes_vec()
}

/// Applies one terminal input to a line discipline (canonical line editing):
/// text is appended and echoed, erase removes the last character, submit
/// delivers the line with a newline, and end-of-file flushes a pending line
/// or signals end of input when nothing is pending.
pub fn process_line_input(discipline: &mut LineDiscipline, input: &TermInput) -> (effect: LineEffect)
    ensures
        (final(discipline)@, effect.echo_view(), effect.deliver_view()) == line_step(old(discipline)@, input@),
{
    let mut buffer = match &*discipline {
        LineDiscipline::Raw => {
            return LineEffect { echo: None, deliver: None };
        },
        LineDiscipline::Canonical { buffer } => buffer.clone(),
    };
    let effect = match input {
        TermInput::Text(text) => {
            buffer.append(text.as_str());
            LineEffect { echo: Some(utf8_bytes(text)), deliver: None }
        },
        TermInput::Erase => {
            match pop_char(&mut buffer) {
                Some(_) => LineEffect { echo: Some(vec![8u8, 32u8, 8u8]), deliver: None },
                None => LineEffect { echo: None, deliver: None },
            }
        },
        TermInput::Submit => {
            let mut bytes = utf8_bytes(&buffer);
            bytes.push(10u8);
            buffer = String::new();
            LineEffect {
                echo: Some(vec![13u8, 10u8]),
                deliver: Some(TerminalInputPayload::Bytes(bytes)),
            }
        },
        TermInput::Eof => {
            let payload = if buffer.as_str().is_empty() {
                assert(buffer@ =~= Seq::<char>::empty());
                TerminalInputPayload::Eof
            } else {
                let bytes = utf8_bytes(&buffer);
                buffer = String::new();
                TerminalInputPayload::Bytes(bytes)
            };
            LineEffect { echo: None, deliver: Some(payload) }
        },
        TermInput::Unsupported => LineEffect { echo: None, deliver: None },
    };
    *discipline = LineDiscipline::Canonical { buffer };
    effect
}

/// The UTF-8 encoding of a concatenation is the concatenation of the encodings.
proof fn lemma_encode_utf8_concat(a: Seq<char>, b: Seq<char>)
    ensures
        encode_utf8(a + b) == encode_utf8(a) + encode_utf8(b),
    decreases a.len(),
{
    if a.len() == 0 {
        assert(a + b =~= b);
    } else {
        lemma_encode_utf8_concat(a.drop_first(), b);
        assert((a + b).drop_first() =~= a.drop_first() + b);
        assert((a + b)[0] == a[0]);
    }
}

proof fn lemma_encode_newline()
    ensures
        encode_utf8(seq!['\n']) == seq![10u8],
{
    reveal_with_fuel(encode_utf8, 2);
    assert(seq!['\n'].drop_first() =~= Seq::<char>::empty());
    assert(seq!['\n'][0] as u32 == 10u32);
    assert(10u32 & 0x7Fu32 == 10u32) by (bit_vector);
    assert(encode_utf8(seq!['\n']) =~= seq![10u8]);
}

/// Erase undoes typing one character: the pending line is as it was before.
pub proof fn erase_undoes_typed_character(buffer: Seq<char>, c: char)
    ensures
        line_step(line_step(LineState::Canonical(buffer), InputView::Text(seq![c])).0, InputView::Erase).0
            == LineState::Canonical(buffer),
{
    assert((buffer + seq![c]).drop_last() =~= buffer);
}

/// Every payload of bytes that a line discipline delivers is valid UTF-8,
/// and it decodes to the pending line, followed by a newline when the line
/// was submitted: the interpreter never reports a typed line as not UTF-8.
pub proof fn delivered_lines_are_utf8(state: LineState, input: InputView)
    ensures
        ({
            let (_, _, delivered) = line_step(state, input);
            delivered matches Some(PayloadView::Bytes(bytes)) ==> {
                &&& valid_utf8(bytes)
                &&& state matches LineState::Canonical(buffer) && decode_utf8(bytes) == if input is Submit {
                    buffer.push('\n')
                } else {
                    buffer
                }
            }
        }),
{
    if let LineState::Canonical(buffer) = state {
        match input {
            InputView::Submit => {
                lemma_encode_utf8_concat(buffer, seq!['\n']);
                lemma_encode_newline();
                assert(buffer + seq!['\n'] =~= buffer.push('\n'));
                assert(encode_utf8(buffer).push(10u8) =~= encode_utf8(buffer) + encode_utf8(seq!['\n']));
                encode_utf8_valid_utf8(buffer.push('\n'));
                encode_utf8_decode_utf8(buffer.push('\n'));
            },
            InputView::Eof => {
                encode_utf8_valid_utf8(buffer);
                encode_utf8_decode_utf8(buffer);
            },
            _ => {},
        }
    }
}

/// The texts of a run of typed texts, one after the other.
pub open spec fn joined(texts: Seq<Seq<char>>) -> Seq<char>
    decreases texts.len(),
{
    if texts.len() == 0 {
        Seq::empty()
    } else {
        joined(texts.drop_last()) + texts.last()
    }
}

/// A run of inputs through a line discipline: the final state, everything
/// echoed, one after the other, and every payload delivered, in order.
pub open spec fn run_line(state: LineState, inputs: Seq<InputView>) -> (LineState, Seq<u8>, Seq<PayloadView>)
    decreases inputs.len(),
{
    if inputs.len() == 0 {
        (state, Seq::empty(), Seq::empty())
    } else {
        let (s, echoed, delivered) = run_line(state, inputs.drop_last());
        let (next, echo, payload) = line_step(s, inputs.last());
        (
            next,
            echoed + match echo {
                Some(e) => e,
                None => Seq::empty(),
            },
            match payload {
                Some(p) => delivered.push(p),
                None => delivered,
            },
        )
    }
}

pub open spec fn texts_as_input(texts: Seq<Seq<char>>) -> Seq<InputView> {
    texts.map_values(|t: Seq<char>| InputView::Text(t))
}

proof fn typing_texts(buffer: Seq<char>, texts: Seq<Seq<char>>)
    ensures
        run_line(LineState::Canonical(buffer), texts_as_input(texts)) == (
            LineState::Canonical(buffer + joined(texts)),
            encode_utf8(joined(texts)),
            Seq::<PayloadView>::empty(),
        ),
    decreases texts.len(),
{
    if texts.len() == 0 {
        assert(texts_as_input(texts) =~= Seq::<InputView>::empty());
        assert(buffer + joined(texts) =~= buffer);
    } else {
        let rest = texts.drop_last();
        typing_texts(buffer, rest);
        assert(texts_as_input(texts).drop_last() =~= texts_as_input(rest));
        assert(texts_as_input(texts).last() == InputView::Text(texts.last()));
        assert(buffer + joined(rest) + texts.last() =~= buffer + joined(texts));
        lemma_encode_utf8_concat(joined(rest), texts.last());
    }
}

/// Typing any run of texts into a canonical line and then submitting it
/// echoes exactly the typed text followed by a line break, delivers exactly
/// one payload, the pending line with everything typed and a newline, and
/// leaves an empty line.
pub proof fn typed_line_is_delivered_on_submit(buffer: Seq<char>, texts: Seq<Seq<char>>)
    ensures
        run_line(LineState::Canonical(buffer), texts_as_input(texts).push(InputView::Submit)) == (
            LineState::Canonical(Seq::empty()),
            encode_utf8(joined(texts)) + submit_echo(),
            seq![PayloadView::Bytes(encode_utf8(buffer + joined(texts)).push(10u8))],
        ),
{
    typing_texts(buffer, texts);
    assert(texts_as_input(texts).push(InputView::Submit).drop_last() =~= texts_as_input(texts));
    assert(Seq::<PayloadView>::empty().push(PayloadView::Bytes(encode_utf8(buffer + joined(texts)).push(10u8)))
        =~= seq![PayloadView::Bytes(encode_utf8(buffer + joined(texts)).push(10u8))]);
}

/// A second end of file in a row always signals the end of input: the
/// first one flushes whatever was pending.
pub proof fn second_eof_ends_input(buffer: Seq<char>)
    ensures
        line_step(line_step(LineState::Canonical(buffer), InputView::Eof).0, InputView::Eof).2
            == Some(PayloadView::Eof),
{
}

/// Erase on a line with at least one pending character removes exactly the
/// last one and rubs it out on screen with backspace, space, backspace,
/// whatever the line's length; nothing is delivered.
pub proof fn erase_rubs_out_the_last_character(buffer: Seq<char>, c: char)
    ensures
        line_step(LineState::Canonical(buffer.push(c)), InputView::Erase) == (
            LineState::Canonical(buffer),
            Some(seq![8u8, 32u8, 8u8]),
            None::<PayloadView>,
        ),
{
    assert(buffer.push(c).drop_last() =~= buffer);
}

/// Erase on an empty line changes nothing, echoes nothing and delivers
/// nothing.
pub proof fn erase_on_an_empty_line_does_nothing()
    ensures
        line_step(LineState::Canonical(Seq::empty()), InputView::Erase) == (
            LineState::Canonical(Seq::empty()),
            None::<Seq<u8>>,
            None::<PayloadView>,
        ),
{
}

/// Typed text is appended to the pending line and echoed as its UTF-8
/// bytes, which decode back to the text; nothing is delivered.
pub proof fn typed_text_is_appended_and_echoed(buffer: Seq<char>, text: Seq<char>)
    ensures
        ({
            let (next, echo, delivered) = line_step(LineState::Canonical(buffer), InputView::Text(text));
            &&& next == LineState::Canonical(buffer + text)
            &&& echo matches Some(bytes) && valid_utf8(bytes) && decode_utf8(bytes) == text
            &&& delivered is None
        }),
{
    encode_utf8_valid_utf8(text);
    encode_utf8_decode_utf8(text);
}

/// Submit delivers the pending line followed by a newline, as UTF-8 bytes,
/// echoes a carriage return and a line feed, and leaves an empty line.
pub proof fn submit_delivers_the_line_with_a_newline(buffer: Seq<char>)
    ensures
        line_step(LineState::Canonical(buffer), InputView::Submit) == (
            LineState::Canonical(Seq::empty()),
            Some(seq![13u8, 10u8]),
            Some(PayloadView::Bytes(encode_utf8(buffer.push('\n')))),
        ),
{
    lemma_encode_utf8_concat(buffer, seq!['\n']);
    lemma_encode_newline();
    assert(buffer + seq!['\n'] =~= buffer.push('\n'));
    assert(encode_utf8(buffer).push(10u8) =~= encode_utf8(buffer) + encode_utf8(seq!['\n']));
}

/// End of file on an empty line signals the end of input; on a pending line
/// it delivers the line as it is, without a newline. Either way nothing is
/// echoed and the line is left empty.
pub proof fn eof_flushes_the_line_or_ends_input(buffer: Seq<char>)
    ensures
        line_step(LineState::Canonical(buffer), InputView::Eof) == (
            LineState::Canonical(Seq::empty()),
            None::<Seq<u8>>,
            Some(if buffer.len() == 0 { PayloadView::Eof } else { PayloadView::Bytes(encode_utf8(buffer)) }),
        ),
        buffer.len() == 0 ==> line_step(LineState::Canonical(buffer), InputView::Eof).2 == Some(PayloadView::Eof),
        buffer.len() > 0 ==> (line_step(LineState::Canonical(buffer), InputView::Eof).2 matches Some(
            PayloadView::Bytes(bytes),
        ) && decode_utf8(bytes) == buffer),
{
    encode_utf8_decode_utf8(buffer);
}

/// A raw line discipline does no line editing: it keeps no line, echoes
/// nothing and delivers nothing, whatever the input; an input the line
/// discipline does not support leaves a canonical line as it is.
pub proof fn inputs_without_line_editing_change_nothing(buffer: Seq<char>, input: InputView)
    ensures
        line_step(LineState::Raw, input) == (LineState::Raw, None::<Seq<u8>>, None::<PayloadView>),
        line_step(LineState::Canonical(buffer), InputView::Unsupported) == (
            LineState::Canonical(buffer),
            None::<Seq<u8>>,
            None::<PayloadView>,
        ),
{
}

/// A key of the host keyboard, as far as the shell tells keys apart.
#[derive(Clone, Debug, PartialEq, Eq)]
pub enum Key {
    Character(String),
    Enter,
    Backspace,
    Space,
    Other,
}

/// A host keyboard event.
#[derive(Clone, Debug, PartialEq, Eq)]
pub struct KeyboardEvent {
    pub pressed: bool,
    pub key: Key,
}

/// Whether a typed character string is the letter `d` in either case.
pub open spec fn is_letter_d(text: Seq<char>) -> bool {
    text == seq!['d'] || text == seq!['D']
}

/// The terminal input that a keyboard event stands for: released keys and
/// keys the shell does not know stand for nothing; control-d ends input.
pub open spec fn key_input(control: bool, event: KeyboardEvent) -> Option<InputView> {
    if !event.pressed {
        None
    } else {
        match event.key {
            Key::Character(text) => if control && is_letter_d(text@) {
                Some(InputView::Eof)
            } else {
                Some(InputView::Text(text@))
            },
            Key::Enter => Some(InputView::Submit),
            Key::Backspace => Some(InputView::Erase),
            Key::Space => Some(InputView::Text(seq![' '])),
            Key::Other => None,
        }
    }
}

/// The terminal inputs that a run of keyboard events stands for, in order.
pub open spec fn key_inputs(control: bool, events: Seq<KeyboardEvent>) -> Seq<InputView>
    decreases events.len(),
{
    if events.len() == 0 {
        Seq::empty()
    } else {
        let rest = key_inputs(control, events.drop_last());
        match key_input(control, events.last()) {
            Some(input) => rest.push(input),
            None => rest,
        }
    }
}

/// A released key stands for no terminal input, whatever the key: only
/// pressing a key types, submits, erases or ends input.
pub proof fn released_keys_stand_for_nothing(control: bool, key: Key)
    ensures
        key_input(control, KeyboardEvent { pressed: false, key }) is None,
{
}

/// What pressing each key stands for: Enter submits the line, Backspace
/// erases, Space types a space, control with `d` or `D` ends input, any
/// other character types itself, and a key the shell does not know stands
/// for nothing.
pub proof fn pressed_keys_stand_for_their_input(control: bool, text: String)
    ensures
        key_input(control, KeyboardEvent { pressed: true, key: Key::Enter }) == Some(InputView::Submit),
        key_input(control, KeyboardEvent { pressed: true, key: Key::Backspace }) == Some(InputView::Erase),
        key_input(control, KeyboardEvent { pressed: true, key: Key::Space }) == Some(InputView::Text(seq![' '])),
        key_input(control, KeyboardEvent { pressed: true, key: Key::Other }) is None,
        control && (text@ == seq!['d'] || text@ == seq!['D']) ==> key_input(
            control,
            KeyboardEvent { pressed: true, key: Key::Character(text) },
        ) == Some(InputView::Eof),
        !(control && (text@ == seq!['d'] || text@ == seq!['D'])) ==> key_input(
            control,
            KeyboardEvent { pressed: true, key: Key::Character(text) },
        ) == Some(InputView::Text(text@)),
{
}

/// The inputs of two runs of keyboard events, one after the other, are the
/// inputs of the first run followed by those of the second: no event is
/// lost, repeated or moved.
pub proof fn key_inputs_of_consecutive_runs(control: bool, first: Seq<KeyboardEvent>, second: Seq<KeyboardEvent>)
    ensures
        key_inputs(control, first + second) == key_inputs(control, first) + key_inputs(control, second),
    decreases second.len(),
{
    if second.len() == 0 {
        assert(first + second =~= first);
        assert(key_inputs(control, first) + key_inputs(control, second) =~= key_inputs(control, first));
    } else {
        key_inputs_of_consecutive_runs(control, first, second.drop_last());
        assert((first + second).drop_last() =~= first + second.drop_last());
        assert((first + second).last() == second.last());
        let a = key_inputs(control, first);
        let b = key_inputs(control, second.drop_last());
        if let Some(i) = key_input(control, second.last()) {
            assert((a + b).push(i) =~= a + b.push(i));
        }
    }
}

/// One keystroke, a press followed by the release of the same key, adds
/// exactly the input that pressing the key stands for, and nothing for the
/// release.
pub proof fn a_keystroke_gives_one_input(control: bool, events: Seq<KeyboardEvent>, key: Key)
    ensures
        key_inputs(
            control,
            events + seq![KeyboardEvent { pressed: true, key }, KeyboardEvent { pressed: false, key }],
        ) == match key_input(control, KeyboardEvent { pressed: true, key }) {
            Some(i) => key_inputs(control, events).push(i),
            None => key_inputs(control, events),
        },
{
    let press = KeyboardEvent { pressed: true, key };
    let release = KeyboardEvent { pressed: false, key };
    let all = events + seq![press, release];
    assert(all.drop_last() =~= events.push(press));
    assert(all.last() == release);
    assert(key_inputs(control, all) == key_inputs(control, events.push(press)));
    assert(events.push(press).drop_last() =~= events);
    assert(events.push(press).last() == press);
}

fn is_eof_letter(text: &String) -> (b: bool)
    ensures
        b == is_letter_d(text@),
{
    let s = text.as_str();
    if s.unicode_len() == 1 {
        let c = s.get_char(0);
        if c == 'd' || c == 'D' {
            assert(text@ =~= seq![c]);
            true
        } else {
            false
        }
    } else {
        false
    }
}

fn key_to_input(control: bool, event: &KeyboardEvent) -> (input: Option<TermInput>)
    ensures
        match input {
            Some(i) => key_input(control, *event) == Some(i@),
            None => key_input(control, *event) is None,
        },
{
    if !event.pressed {
        return None;
    }
    match &event.key {
        Key::Character(text) => {
            if control && is_eof_letter(text) {
                Some(TermInput::Eof)
            } else {
                Some(TermInput::Text(text.clone()))
            }
        },
        Key::Enter => Some(TermInput::Submit),
        Key::Backspace => Some(TermInput::Erase),
        Key::Space => {
            let space = String::from_str(" ");
            proof {
                reveal_strlit(" ");
            }
            assert(space@ =~= seq![' ']);
            Some(TermInput::Text(space))
        },
        Key::Other => None,
    }
}

/// Maps the host keyboard events of a frame to input for the active shell
/// terminal: nothing when no terminal is active or the active terminal has
/// no shell, otherwise the input that each pressed key stands for, in order.
pub fn keyboard_input(
    active: Option<Entity>,
    terminal_has_shell: bool,
    control: bool,
    events: &Vec<KeyboardEvent>,
) -> (msgs: Vec<TermInputMsg>)
    ensures
        (active is None || !terminal_has_shell) ==> msgs@.len() == 0,
        (active is Some && terminal_has_shell) ==> {
            &&& msgs@.map_values(|m: TermInputMsg| m.input@) == key_inputs(control, events@)
            &&& forall|i: int| 0 <= i < msgs@.len() ==> #[trigger] msgs@[i].term == active->0
        },
{
    let mut msgs: Vec<TermInputMsg> = Vec::new();
    let terminal = match active {
        Some(t) => t,
        None => return msgs,
    };
    if !terminal_has_shell {
        return msgs;
    }
    let n = events.len();
    for i in 0..n
        invariant
            n == events@.len(),
            msgs@.map_values(|m: TermInputMsg| m.input@) == key_inputs(control, events@.take(i as int)),
            forall|j: int| 0 <= j < msgs@.len() ==> #[trigger] msgs@[j].term == terminal,
    {
        assert(events@.take(i + 1).drop_last() =~= events@.take(i as int));
        let ghost before = msgs@;
        match key_to_input(control, &events[i]) {
            Some(input) => {
                msgs.push(TermInputMsg { term: terminal, input });
                assert(msgs@.map_values(|m: TermInputMsg| m.input@) =~= before.map_values(
                    |m: TermInputMsg| m.input@,
                ).push(input@));
            },
            None => {},
        }
    }
    assert(events@.take(n as int) =~= events@);
    msgs
}

/// Whether a process whose stdin is `stdin` reads from the terminal
/// endpoint of `terminal`; input for a redirected stdin is discarded.
pub open spec fn reads_terminal(terminal: Entity, stdin: Option<EndpointHandle>) -> bool {
    stdin matches Some(h) && h.is_terminal_endpoint_of(terminal)
}

/// A process reads from a terminal exactly when its stdin is that
/// terminal's own terminal endpoint: a redirected stdin, another
/// terminal's endpoint or no stdin at all does not read it.
pub proof fn only_the_terminal_endpoint_reads_the_terminal(terminal: Entity, stdin: Option<EndpointHandle>)
    ensures
        reads_terminal(terminal, stdin) <==> (stdin is Some && stdin->0.terminal && stdin->0.entity == terminal),
{
}

/// Routes a terminal input payload to the terminal's foreground process:
/// only when there is one and its stdin is this terminal's endpoint.
pub fn deliver_input(
    terminal: Entity,
    foreground: Option<Entity>,
    stdin: Option<EndpointHandle>,
    payload: TerminalInputPayload,
) -> (msg: Option<ProcessInputMsg>)
    ensures
        msg is Some <==> foreground is Some && reads_terminal(terminal, stdin),
        msg matches Some(m) ==> {
            &&& m.process == foreground->0
            &&& m.fd == FileDescriptor::stdin()
            &&& m.endpoint == stdin->0
            &&& m.payload == payload
        },
{
    let process = match foreground {
        Some(p) => p,
        None => return None,
    };
    let endpoint = match stdin {
        Some(e) => e,
        None => return None,
    };
    if endpoint.entity != terminal || !endpoint.terminal {
        return None;
    }
    Some(ProcessInputMsg { process, fd: FileDescriptor::stdin(), endpoint, payload })
}

} // verus!
