//! The default interpreter consumes one parsed command and waits for its job.

use vstd::prelude::*;
use vstd::string::*;
use vstd::utf8::{decode_utf8, encode_utf8, valid_utf8};

use crate::data::shell::{ShellJobTarget, ShellSpawnMsg};
use crate::language::{ir_words, ShellIr, ShellLanguage, ShellParseError};
use crate::process::{Entity, FileDescriptor, ProcessWriteMsg, TerminalInputPayload};

verus! {

/// The bytes of the prompt, `$ `.
pub open spec fn prompt_bytes() -> Seq<u8> {
    seq![36u8, 32u8]
}

/// The line break that ends every error message.
pub open spec fn line_break() -> Seq<char> {
    seq!['\r', '\n']
}

/// Whether the interpreter is ready for a line or waits for its job.
#[derive(Clone, Copy, Debug, PartialEq, Eq, Structural)]
pub enum ShellPhase {
    Ready,
    Waiting,
}

/// The interpreter state held by a shell process.
#[derive(Clone, Copy, Debug, PartialEq, Eq, Structural)]
pub struct ShellExecution {
    pub phase: ShellPhase,
}

impl ShellExecution {
    /// A fresh interpreter, ready for a line.
    pub fn new() -> (e: Self)
        ensures
            e.phase == ShellPhase::Ready,
    {
        ShellExecution { phase: ShellPhase::Ready }
    }
}

/// What the interpreter does to its shell's entity and the world.
#[derive(Debug, PartialEq, Eq)]
pub enum ShellAction {
    /// Give the shell a fresh interpreter state.
    InsertExecution,
    SetPhase(ShellPhase),
    Write(ProcessWriteMsg),
    Spawn(ShellSpawnMsg),
    /// End the shell process.
    RemoveProcess,
}

/// Whether `a` writes the prompt to the shell's stdout.
pub open spec fn is_prompt(a: ShellAction, shell: Entity) -> bool {
    a matches ShellAction::Write(w) && w.process == shell && w.fd == FileDescriptor::spec_stdout()
        && w.bytes@ == prompt_bytes()
}

/// Whether `a` writes `message` and a line break to the shell's stderr.
pub open spec fn is_error(a: ShellAction, shell: Entity, message: Seq<char>) -> bool {
    a matches ShellAction::Write(w) && w.process == shell && w.fd == FileDescriptor::spec_stderr()
        && w.bytes@ == encode_utf8(message + line_break())
}

/// Writes the prompt to the shell's stdout.
pub fn prompt(shell: Entity) -> (a: ShellAction)
    ensures
        is_prompt(a, shell),
{
    ShellAction::Write(ProcessWriteMsg { process: shell, fd: FileDescriptor::stdout(), bytes: vec![36u8, 32u8] })
}

/// Writes `message` and a line break to the shell's stderr.
pub fn write_error(shell: Entity, message: &str) -> (a: ShellAction)
    ensures
        is_error(a, shell, message@),
{
    let mut text = String::from_str(message);
    text.append("\r\n");
    proof {
        reveal_strlit("\r\n");
    }
    assert(text@ =~= message@ + line_break());
    let bytes = text.as_str().as_bytes_vec();
    ShellAction::Write(ProcessWriteMsg { process: shell, fd: FileDescriptor::stderr(), bytes })
}

/// Whether a shell's job target lists a running job.
pub open spec fn has_running_jobs(jobs: Option<&ShellJobTarget>) -> bool {
    jobs matches Some(j) && j.spec_jobs().len() > 0
}

/// A line of shell input after UTF-8 decoding.
#[derive(Debug, PartialEq, Eq)]
pub enum DecodedLine {
    EndOfInput,
    NotUtf8,
    Source(String),
}

/// Calls `std::str::from_utf8`, which accepts a byte string exactly when it
/// is valid UTF-8 and then gives the string those bytes encode.
#[verifier::external_body]
fn utf8_source(bytes: &[u8]) -> (source: Option<&str>)
    ensures
        source is Some <==> valid_utf8(bytes@),
        source matches Some(s) ==> s@ == decode_utf8(bytes@),
{
    std::str::from_utf8(bytes).ok()
}

/// Decodes one payload of the shell's stdin: end of input, bytes that are
/// not UTF-8, or the source text the bytes encode.
pub fn decode_line(payload: &TerminalInputPayload) -> (line: DecodedLine)
    ensures
        match payload {
            TerminalInputPayload::Eof => line is EndOfInput,
            TerminalInputPayload::Bytes(b) => if valid_utf8(b@) {
                line matches DecodedLine::Source(s) && s@ == decode_utf8(b@)
            } else {
                line is NotUtf8
            },
        },
{
    match payload {
        TerminalInputPayload::Eof => DecodedLine::EndOfInput,
        TerminalInputPayload::Bytes(bytes) => match utf8_source(bytes.as_slice()) {
            None => DecodedLine::NotUtf8,
            Some(source) => DecodedLine::Source(source.to_owned()),
        },
    }
}

/// What acting on a parsed line does, given whether a program named like
/// the command is registered: an empty line redraws the prompt; a command
/// whose program is registered is spawned with its arguments and the shell
/// waits for it; an unknown command or a parse error is reported on stderr
/// before the prompt.
pub open spec fn line_dispatch(
    shell: Entity,
    parsed: Result<ShellIr, ShellParseError>,
    registered: bool,
    actions: Seq<ShellAction>,
) -> bool {
    match parsed {
        Ok(ShellIr::Empty) => actions.len() == 1 && is_prompt(actions[0], shell),
        Ok(ShellIr::Command { program, arguments }) => if registered {
            &&& actions.len() == 2
            &&& actions[0] matches ShellAction::Spawn(m) && m.prog == program && m.shell == shell && m.argv
                == arguments && m.environ@ == Map::<String, String>::empty()
            &&& actions[1] == ShellAction::SetPhase(ShellPhase::Waiting)
        } else {
            &&& actions.len() == 2
            &&& is_error(actions[0], shell, program@ + ": command not found"@)
            &&& is_prompt(actions[1], shell)
        },
        Err(e) => {
            &&& actions.len() == 2
            &&& is_error(actions[0], shell, "shell: "@ + e.text())
            &&& is_prompt(actions[1], shell)
        },
    }
}

/// Acts on a parsed line; `registered` says whether a program named like
/// the command is registered (it does not matter for other lines).
pub fn dispatch_line(shell: Entity, parsed: Result<ShellIr, ShellParseError>, registered: bool) -> (actions: Vec<
    ShellAction,
>)
    ensures
        line_dispatch(shell, parsed, registered, actions@),
{
    let mut actions: Vec<ShellAction> = Vec::new();
    match parsed {
        Ok(ShellIr::Empty) => {
            actions.push(prompt(shell));
        },
        Ok(ShellIr::Command { program, arguments }) => {
            if registered {
                actions.push(ShellAction::Spawn(ShellSpawnMsg::with_args(program, shell, arguments)));
                actions.push(ShellAction::SetPhase(ShellPhase::Waiting));
            } else {
                let mut text = program.clone();
                text.append(": command not found");
                actions.push(write_error(shell, text.as_str()));
                actions.push(prompt(shell));
            }
        },
        Err(e) => {
            let mut text = String::from_str("shell: ");
            let message = e.message();
            text.append(message.as_str());
            actions.push(write_error(shell, text.as_str()));
            actions.push(prompt(shell));
        },
    }
    actions
}

/// The dispatch law: acting on a line spawns a job, and leaves the shell
/// waiting, exactly when the line is a command whose program is registered;
/// otherwise nothing is spawned, the shell is not left waiting, and exactly
/// one prompt is written, as the last action.
pub proof fn dispatch_spawns_exactly_registered_commands(
    shell: Entity,
    parsed: Result<ShellIr, ShellParseError>,
    registered: bool,
    actions: Seq<ShellAction>,
)
    requires
        line_dispatch(shell, parsed, registered, actions),
    ensures
        (exists|i: int| 0 <= i < actions.len() && #[trigger] actions[i] is Spawn) <==> (parsed matches Ok(
            ShellIr::Command { .. },
        ) && registered),
        (parsed matches Ok(ShellIr::Command { .. }) && registered) ==> actions.last() == ShellAction::SetPhase(
            ShellPhase::Waiting,
        ),
        !(parsed matches Ok(ShellIr::Command { .. }) && registered) ==> {
            &&& is_prompt(actions.last(), shell)
            &&& forall|i: int| 0 <= i < actions.len() - 1 ==> !is_prompt(#[trigger] actions[i], shell)
            &&& forall|i: int| 0 <= i < actions.len() ==> !(#[trigger] actions[i] is SetPhase)
        },
{
    match parsed {
        Ok(ShellIr::Command { .. }) => {
            if registered {
                assert(actions[0] is Spawn);
            } else {
                assert(!(actions[0] is Spawn) && !(actions[1] is Spawn));
                prompt_is_not_an_error_write(actions[0], shell);
            }
        },
        Ok(ShellIr::Empty) => {},
        Err(e) => {
            prompt_is_not_an_error_write(actions[0], shell);
        },
    }
}

/// A registered command is spawned with exactly the words after its
/// program as arguments, an empty argument list included: the program name
/// never reaches `argv`. The request names the program, comes from the
/// shell, carries an empty environment, and the shell then waits.
pub proof fn dispatched_command_gets_its_arguments(
    shell: Entity,
    ir: ShellIr,
    actions: Seq<ShellAction>,
)
    requires
        ir is Command,
        line_dispatch(shell, Ok(ir), true, actions),
    ensures
        actions.len() == 2,
        actions[0] matches ShellAction::Spawn(m) && {
            &&& m.prog@ == ir_words(ir)[0]
            &&& m.argv.deep_view() == ir_words(ir).drop_first()
            &&& m.argv.deep_view().len() == ir_words(ir).len() - 1
            &&& m.shell == shell
            &&& m.environ@ == Map::<String, String>::empty()
        },
        actions[1] == ShellAction::SetPhase(ShellPhase::Waiting),
{
    assert(ir_words(ir).drop_first() =~= ir->arguments.deep_view());
}

/// A command whose program is not registered is answered on the shell's
/// stderr with `<program>: command not found` and a line break, followed by
/// the prompt `$ ` on its stdout; nothing is spawned.
pub proof fn unknown_command_is_reported(shell: Entity, ir: ShellIr, actions: Seq<ShellAction>)
    requires
        ir is Command,
        line_dispatch(shell, Ok(ir), false, actions),
    ensures
        actions.len() == 2,
        actions[0] matches ShellAction::Write(w) && {
            &&& w.process == shell
            &&& w.fd == FileDescriptor(2)
            &&& w.bytes@ == encode_utf8(ir_words(ir)[0] + ": command not found"@ + seq!['\r', '\n'])
        },
        actions[1] matches ShellAction::Write(w) && {
            &&& w.process == shell
            &&& w.fd == FileDescriptor(1)
            &&& w.bytes@ == seq![36u8, 32u8]
        },
{
    assert(ir_words(ir)[0] == ir->program@);
}

/// A line that does not parse is answered on the shell's stderr with
/// `shell: ` and the parse error's text and a line break, followed by the
/// prompt; nothing is spawned, registered or not.
pub proof fn parse_error_is_reported(
    shell: Entity,
    e: ShellParseError,
    registered: bool,
    actions: Seq<ShellAction>,
)
    requires
        line_dispatch(shell, Err(e), registered, actions),
    ensures
        actions.len() == 2,
        actions[0] matches ShellAction::Write(w) && {
            &&& w.process == shell
            &&& w.fd == FileDescriptor(2)
            &&& w.bytes@ == encode_utf8("shell: "@ + e.text() + seq!['\r', '\n'])
        },
        actions[1] matches ShellAction::Write(w) && {
            &&& w.process == shell
            &&& w.fd == FileDescriptor(1)
            &&& w.bytes@ == seq![36u8, 32u8]
        },
{
}

/// An empty line only redraws the prompt `$ ` on the shell's stdout.
pub proof fn empty_line_redraws_the_prompt(shell: Entity, registered: bool, actions: Seq<ShellAction>)
    requires
        line_dispatch(shell, Ok(ShellIr::Empty), registered, actions),
    ensures
        actions.len() == 1,
        actions[0] matches ShellAction::Write(w) && {
            &&& w.process == shell
            &&& w.fd == FileDescriptor(1)
            &&& w.bytes@ == seq![36u8, 32u8]
        },
{
}

proof fn prompt_is_not_an_error_write(a: ShellAction, shell: Entity)
    requires
        a matches ShellAction::Write(w) && w.fd == FileDescriptor::spec_stderr(),
    ensures
        !is_prompt(a, shell),
{
}

/// Whether the registry answers `found` for a name that spells `program`.
pub open spec fn looked_up<F: Fn(&str) -> bool>(registered: F, program: Seq<char>, found: bool) -> bool {
    exists|name: &str| #![trigger call_ensures(registered, (name,), found)] name@ == program && call_ensures(
        registered,
        (name,),
        found,
    )
}

/// What acting on a parsed line does when the registry is asked about the
/// command's program.
pub open spec fn dispatched_with<F: Fn(&str) -> bool>(
    shell: Entity,
    registered: F,
    parsed: Result<ShellIr, ShellParseError>,
    actions: Seq<ShellAction>,
) -> bool {
    match parsed {
        Ok(ShellIr::Command { program, .. }) => exists|found: bool|
            #![trigger looked_up(registered, program@, found)]
            looked_up(registered, program@, found) && line_dispatch(shell, parsed, found, actions),
        _ => line_dispatch(shell, parsed, false, actions),
    }
}

/// The registry decides: a command is spawned only when the registry
/// answered yes for a name that spells its program, and reported as unknown
/// only when it answered no for such a name.
pub proof fn registry_decides_what_is_spawned<F: Fn(&str) -> bool>(
    shell: Entity,
    registered: F,
    ir: ShellIr,
    actions: Seq<ShellAction>,
)
    requires
        ir is Command,
        dispatched_with(shell, registered, Ok(ir), actions),
    ensures
        actions.len() == 2,
        actions[0] is Spawn ==> exists|name: &str|
            #![trigger call_ensures(registered, (name,), true)]
            name@ == ir->program@ && call_ensures(registered, (name,), true),
        !(actions[0] is Spawn) ==> exists|name: &str|
            #![trigger call_ensures(registered, (name,), false)]
            name@ == ir->program@ && call_ensures(registered, (name,), false),
{
    let found = choose|found: bool|
        #![trigger looked_up(registered, ir->program@, found)]
        looked_up(registered, ir->program@, found) && line_dispatch(shell, Ok(ir), found, actions);
    let name = choose|name: &str|
        #![trigger call_ensures(registered, (name,), found)]
        name@ == ir->program@ && call_ensures(registered, (name,), found);
    if found {
        assert(call_ensures(registered, (name,), true));
    } else {
        assert(call_ensures(registered, (name,), false));
    }
}

/// What the interpreter does in one frame.
#[derive(Debug, PartialEq, Eq)]
pub struct ShellFrame {
    pub actions: Vec<ShellAction>,
    /// Whether the frame took the next line of the shell's stdin.
    pub consumed_input: bool,
}

/// One frame of the interpreter. A shell that does not run the default shell
/// program is left alone; a new shell gets its interpreter state and a
/// prompt; a waiting shell keeps waiting while its job runs and then becomes
/// ready and prompts again. A ready shell takes one line of its stdin, if
/// there is one: end of input ends the shell process, bytes that are not
/// UTF-8 are reported, and any other line is parsed by `language` and acted
/// on, with `registered` asked whether the command's program exists.
pub fn run_shell<L: ShellLanguage, F: Fn(&str) -> bool>(
    language: &L,
    registered: &F,
    shell: Entity,
    runs_default_program: bool,
    execution: Option<ShellPhase>,
    jobs: Option<&ShellJobTarget>,
    next_input: Option<&TerminalInputPayload>,
) -> (frame: ShellFrame)
    requires
        forall|name: &str| call_requires(*registered, (name,)),
    ensures
        frame.consumed_input <==> runs_default_program && execution == Some(ShellPhase::Ready) && next_input is Some,
        !runs_default_program ==> frame.actions@.len() == 0,
        runs_default_program && execution is None ==> {
            &&& frame.actions@.len() == 2
            &&& frame.actions@[0] is InsertExecution
            &&& is_prompt(frame.actions@[1], shell)
        },
        runs_default_program && execution == Some(ShellPhase::Waiting) && has_running_jobs(jobs)
            ==> frame.actions@.len() == 0,
        runs_default_program && execution == Some(ShellPhase::Waiting) && !has_running_jobs(jobs) ==> {
            &&& frame.actions@.len() == 2
            &&& frame.actions@[0] == ShellAction::SetPhase(ShellPhase::Ready)
            &&& is_prompt(frame.actions@[1], shell)
        },
        runs_default_program && execution == Some(ShellPhase::Ready) ==> match next_input {
            None => frame.actions@.len() == 0,
            Some(TerminalInputPayload::Eof) => frame.actions@.len() == 1 && frame.actions@[0] is RemoveProcess,
            Some(TerminalInputPayload::Bytes(b)) => if valid_utf8(b@) {
                exists|source: &str, parsed: Result<ShellIr, ShellParseError>|
                    #![trigger call_ensures(L::parse, (language, source), parsed)]
                    source@ == decode_utf8(b@) && call_ensures(L::parse, (language, source), parsed)
                        && dispatched_with(shell, *registered, parsed, frame.actions@)
            } else {
                &&& frame.actions@.len() == 2
                &&& is_error(frame.actions@[0], shell, "shell: input is not valid UTF-8"@)
                &&& is_prompt(frame.actions@[1], shell)
            },
        },
{
    let mut actions: Vec<ShellAction> = Vec::new();
    if !runs_default_program {
        return ShellFrame { actions, consumed_input: false };
    }
    match execution {
        None => {
            actions.push(ShellAction::InsertExecution);
            actions.push(prompt(shell));
            return ShellFrame { actions, consumed_input: false };
        },
        Some(ShellPhase::Waiting) => {
            let running = match jobs {
                Some(j) => j.jobs().len() > 0,
                None => false,
            };
            if !running {
                actions.push(ShellAction::SetPhase(ShellPhase::Ready));
                actions.push(prompt(shell));
            }
            return ShellFrame { actions, consumed_input: false };
        },
        Some(ShellPhase::Ready) => {},
    }
    let payload = match next_input {
        Some(p) => p,
        None => return ShellFrame { actions, consumed_input: false },
    };
    match decode_line(payload) {
        DecodedLine::EndOfInput => {
            actions.push(ShellAction::RemoveProcess);
        },
        DecodedLine::NotUtf8 => {
            actions.push(write_error(shell, "shell: input is not valid UTF-8"));
            actions.push(prompt(shell));
        },
        DecodedLine::Source(source) => {
            let parsed = language.parse(source.as_str());
            let ghost p = parsed;
            let found = match &parsed {
                Ok(ShellIr::Command { program, .. }) => registered(program.as_str()),
                _ => false,
            };
            let actions = dispatch_line(shell, parsed, found);
            proof {
                if let Ok(ShellIr::Command { program, .. }) = p {
                    assert(looked_up(*registered, program@, found));
                }
                assert(dispatched_with(shell, *registered, p, actions@));
            }
            return ShellFrame { actions, consumed_input: true };
        },
    }
    ShellFrame { actions, consumed_input: true }
}

} // verus!
