//! Plain values for what the shell reads from and hands to the virtual
//! terminal: keyboard-level input, line disciplines and terminal messages.

use vstd::prelude::*;
use crate::process::Entity;

verus! {

/// Input that a terminal receives from its keyboard.
#[derive(Clone, Debug, PartialEq, Eq)]
pub enum TermInput {
    Text(String),
    Erase,
    Submit,
    Eof,
    /// An operation that the line discipline does not handle.
    Unsupported,
}

/// The abstract value of terminal input.
pub enum InputView {
    Text(Seq<char>),
    Erase,
    Submit,
    Eof,
    Unsupported,
}

impl View for TermInput {
    type V = InputView;

    open spec fn view(&self) -> InputView {
        match self {
            TermInput::Text(t) => InputView::Text(t@),
            TermInput::Erase => InputView::Erase,
            TermInput::Submit => InputView::Submit,
            TermInput::Eof => InputView::Eof,
            TermInput::Unsupported => InputView::Unsupported,
        }
    }
}

/// The abstract value of terminal input keeps its kind and typed text.
pub proof fn input_view_keeps_the_input(input: TermInput)
    ensures
        input matches TermInput::Text(t) ==> input@ == InputView::Text(t@),
        input is Erase ==> input@ == InputView::Erase,
        input is Submit ==> input@ == InputView::Submit,
        input is Eof ==> input@ == InputView::Eof,
        input is Unsupported ==> input@ == InputView::Unsupported,
{
}

/// Terminal input addressed to a terminal entity.
#[derive(Clone, Debug, PartialEq, Eq)]
pub struct TermInputMsg {
    pub term: Entity,
    pub input: TermInput,
}

/// How a terminal turns keyboard input into process input.
#[derive(Clone, Debug, PartialEq, Eq)]
pub enum LineDiscipline {
    Raw,
    Canonical { buffer: String },
}

/// The abstract value of a line discipline: the pending line, if canonical.
pub enum LineState {
    Raw,
    Canonical(Seq<char>),
}

impl View for LineDiscipline {
    type V = LineState;

    open spec fn view(&self) -> LineState {
        match self {
            LineDiscipline::Raw => LineState::Raw,
            LineDiscipline::Canonical { buffer } => LineState::Canonical(buffer@),
        }
    }
}

/// The abstract value of a line discipline keeps its mode and pending line.
pub proof fn line_state_keeps_the_pending_line(discipline: LineDiscipline)
    ensures
        discipline matches LineDiscipline::Canonical { buffer } ==> discipline@ == LineState::Canonical(buffer@),
        discipline is Raw ==> discipline@ == LineState::Raw,
{
}

/// Held by the entity (a shell or one of its processes) that is the
/// foreground peer of a terminal: that terminal.
#[derive(Clone, Copy, Debug, PartialEq, Eq, Structural)]
pub struct VtForegroundProcess(pub Entity);

/// Held by a terminal: its foreground peer.
#[derive(Clone, Copy, Debug, PartialEq, Eq, Structural)]
pub struct VtForegroundProcessTarget(pub Entity);

impl VtForegroundProcessTarget {
    pub fn process(&self) -> (p: Entity)
        ensures
            p == self.0,
    {
        self.0
    }
}

/// Bytes written to a terminal, with the process that wrote them if any.
#[derive(Clone, Debug, PartialEq, Eq)]
pub struct VtWriteMsg {
    pub term: Entity,
    pub from: Option<Entity>,
    pub bytes: Vec<u8>,
}

/// The abstract value of a terminal write.
pub struct VtWriteView {
    pub term: Entity,
    pub from: Option<Entity>,
    pub bytes: Seq<u8>,
}

impl View for VtWriteMsg {
    type V = VtWriteView;

    open spec fn view(&self) -> VtWriteView {
        VtWriteView { term: self.term, from: self.from, bytes: self.bytes@ }
    }
}

/// Bytes that a terminal sends back to its foreground process.
#[derive(Clone, Debug, PartialEq, Eq)]
pub struct VtReplyMsg {
    pub term: Entity,
    pub bytes: Vec<u8>,
}

/// The abstract value of a terminal write keeps its terminal, writer and
/// bytes.
pub proof fn write_view_keeps_every_field(w: VtWriteMsg)
    ensures
        w@.term == w.term,
        w@.from == w.from,
        w@.bytes == w.bytes@,
{
}

} // verus!
