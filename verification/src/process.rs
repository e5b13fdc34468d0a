//! Plain values for what the shell reads from and hands to the process layer:
//! entities, descriptors, endpoint handles, input payloads and messages.

use std::collections::HashMap;

use vstd::prelude::*;

verus! {

/// An entity of the world, by its 64-bit id.
pub type Entity = u64;

/// A process file descriptor number.
#[derive(Clone, Copy, Debug, PartialEq, Eq, Hash, Structural)]
pub struct FileDescriptor(pub u32);

impl FileDescriptor {
    pub open spec fn spec_stdin() -> FileDescriptor {
        FileDescriptor(0)
    }

    pub open spec fn spec_stdout() -> FileDescriptor {
        FileDescriptor(1)
    }

    pub open spec fn spec_stderr() -> FileDescriptor {
        FileDescriptor(2)
    }

    #[verifier::when_used_as_spec(spec_stdin)]
    pub fn stdin() -> (fd: FileDescriptor)
        ensures
            fd == Self::spec_stdin(),
    {
        FileDescriptor(0)
    }

    #[verifier::when_used_as_spec(spec_stdout)]
    pub fn stdout() -> (fd: FileDescriptor)
        ensures
            fd == Self::spec_stdout(),
    {
        FileDescriptor(1)
    }

    #[verifier::when_used_as_spec(spec_stderr)]
    pub fn stderr() -> (fd: FileDescriptor)
        ensures
            fd == Self::spec_stderr(),
    {
        FileDescriptor(2)
    }
}

/// A handle to an I/O endpoint: the entity that carries the endpoint
/// component, and whether that component is the terminal endpoint.
#[derive(Clone, Copy, Debug, PartialEq, Eq, Hash, Structural)]
pub struct EndpointHandle {
    pub entity: Entity,
    pub terminal: bool,
}

impl EndpointHandle {
    /// Whether this handle names the terminal endpoint on `terminal`.
    pub open spec fn is_terminal_endpoint_of(self, terminal: Entity) -> bool {
        self.terminal && self.entity == terminal
    }
}

/// The standard descriptors of a process.
#[derive(Clone, Copy, Debug, PartialEq, Eq, Structural)]
pub struct StandardDescriptors {
    pub stdin: Option<EndpointHandle>,
    pub stdout: Option<EndpointHandle>,
    pub stderr: Option<EndpointHandle>,
}

impl StandardDescriptors {
    /// A table with every standard descriptor closed.
    pub fn closed() -> (d: StandardDescriptors)
        ensures
            d.stdin is None,
            d.stdout is None,
            d.stderr is None,
    {
        StandardDescriptors { stdin: None, stdout: None, stderr: None }
    }

    /// Whether all three standard descriptors are open on `handle`.
    pub open spec fn all_on(self, handle: EndpointHandle) -> bool {
        &&& self.stdin == Some(handle)
        &&& self.stdout == Some(handle)
        &&& self.stderr == Some(handle)
    }

    /// Opens stdin, stdout and stderr on `handle`.
    pub fn set_all(&mut self, handle: EndpointHandle)
        ensures
            final(self).all_on(handle),
    {
        self.stdin = Some(handle);
        self.stdout = Some(handle);
        self.stderr = Some(handle);
    }
}

/// Opening all three standard descriptors on a handle means stdin, stdout
/// and stderr each are open on that handle, none left closed or elsewhere.
pub proof fn all_on_opens_every_standard_descriptor(d: StandardDescriptors, handle: EndpointHandle)
    ensures
        d.all_on(handle) <==> (d.stdin == Some(handle) && d.stdout == Some(handle) && d.stderr == Some(handle)),
{
}

/// A process: the program it runs, its arguments and its environment. It
/// starts with no signal overrides.
#[derive(Debug, PartialEq, Eq)]
pub struct ProcessSpec {
    pub prog: String,
    pub argv: Vec<String>,
    pub environ: HashMap<String, String>,
}

/// The abstract value of a process.
pub struct ProcessView {
    pub prog: Seq<char>,
    pub argv: Seq<Seq<char>>,
    pub environ: Map<String, String>,
}

impl View for ProcessSpec {
    type V = ProcessView;

    open spec fn view(&self) -> ProcessView {
        ProcessView { prog: self.prog@, argv: self.argv.deep_view(), environ: self.environ@ }
    }
}

impl ProcessSpec {
    /// A copy of this process.
    pub fn duplicate(&self) -> (p: ProcessSpec)
        ensures
            p@ == self@,
    {
        let mut argv: Vec<String> = Vec::new();
        let n = self.argv.len();
        for i in 0..n
            invariant
                n == self.argv@.len(),
                argv@.len() == i,
                argv.deep_view() == self.argv.deep_view().take(i as int),
        {
            let arg = self.argv[i].clone();
            assert(arg@ == self.argv.deep_view()[i as int]);
            let ghost before = argv@;
            let ghost dv_before = argv.deep_view();
            argv.push(arg);
            assert(argv@ == before.push(arg));
            assert forall|j: int| 0 <= j < i + 1 implies #[trigger] argv.deep_view()[j] == self.argv.deep_view().take(
                i + 1,
            )[j] by {
                if j < i {
                    assert(argv@[j] == before[j]);
                    assert(dv_before[j] == before[j]@);
                }
            }
            assert(argv.deep_view() =~= self.argv.deep_view().take(i + 1));
        }
        assert(self.argv.deep_view().take(n as int) =~= self.argv.deep_view());
        ProcessSpec { prog: self.prog.clone(), argv, environ: self.environ.clone() }
    }
}

/// What a terminal hands to a process's input.
#[derive(Clone, Debug, PartialEq, Eq)]
pub enum TerminalInputPayload {
    Bytes(Vec<u8>),
    Eof,
}

/// The abstract value of a terminal input payload.
pub enum PayloadView {
    Bytes(Seq<u8>),
    Eof,
}

impl View for TerminalInputPayload {
    type V = PayloadView;

    open spec fn view(&self) -> PayloadView {
        match self {
            TerminalInputPayload::Bytes(b) => PayloadView::Bytes(b@),
            TerminalInputPayload::Eof => PayloadView::Eof,
        }
    }
}

/// The abstract value of a payload keeps its bytes, or its end of input.
pub proof fn payload_view_keeps_the_bytes(payload: TerminalInputPayload)
    ensures
        payload matches TerminalInputPayload::Bytes(b) ==> payload@ == PayloadView::Bytes(b@),
        payload is Eof ==> payload@ == PayloadView::Eof,
{
}

/// The abstract value of a process keeps its program, its arguments in
/// order and its environment.
pub proof fn process_view_keeps_every_field(p: ProcessSpec)
    ensures
        p@.prog == p.prog@,
        p@.argv.len() == p.argv@.len(),
        forall|i: int| 0 <= i < p.argv@.len() ==> #[trigger] p@.argv[i] == p.argv@[i]@,
        p@.environ == p.environ@,
{
}

/// Input addressed to one descriptor of a process.
#[derive(Debug, PartialEq, Eq)]
pub struct ProcessInputMsg {
    pub process: Entity,
    pub fd: FileDescriptor,
    pub endpoint: EndpointHandle,
    pub payload: TerminalInputPayload,
}

/// The abstract value of process input.
pub struct ProcessInputView {
    pub process: Entity,
    pub fd: FileDescriptor,
    pub endpoint: EndpointHandle,
    pub payload: PayloadView,
}

impl View for ProcessInputMsg {
    type V = ProcessInputView;

    open spec fn view(&self) -> ProcessInputView {
        ProcessInputView { process: self.process, fd: self.fd, endpoint: self.endpoint, payload: self.payload@ }
    }
}

/// The abstract value of process input keeps its process, descriptor,
/// endpoint and payload.
pub proof fn process_input_view_keeps_every_field(m: ProcessInputMsg)
    ensures
        m@.process == m.process,
        m@.fd == m.fd,
        m@.endpoint == m.endpoint,
        m@.payload == m.payload@,
{
}

/// Output that a process writes to one of its descriptors.
#[derive(Debug, PartialEq, Eq)]
pub struct ProcessWriteMsg {
    pub process: Entity,
    pub fd: FileDescriptor,
    pub bytes: Vec<u8>,
}

/// Output that a process wrote, routed to the endpoint of the descriptor it
/// wrote to.
#[derive(Debug, PartialEq, Eq)]
pub struct EndpointWriteMsg {
    pub process: Entity,
    pub endpoint: EndpointHandle,
    pub payload: Vec<u8>,
}

/// A signal sent to a process on behalf of a terminal.
#[derive(Clone, Copy, Debug, PartialEq, Eq, Structural)]
pub enum Sig {
    Hup,
}

#[derive(Clone, Copy, Debug, PartialEq, Eq, Structural)]
pub struct SignalMsg {
    pub term: Entity,
    pub target: Entity,
    pub signal: Sig,
}

} // verus!
