//! Translation between routed process I/O and virtual-terminal messages, and
//! the terminal foreground that follows the shell's job control.

use vstd::prelude::*;

use crate::data::shell::{related_to, selections_in_groups, terminal_peer, ForegroundInputProcess, ForegroundInputProcessTarget, ForegroundProcess, Shell, ShellJob, ShellTarget};
use crate::process::{
    EndpointHandle, EndpointWriteMsg, Entity, FileDescriptor, PayloadView, ProcessInputMsg,
    ProcessInputView, Sig, SignalMsg, TerminalInputPayload,
};
use crate::systems::input::{deliver_input, reads_terminal};
use crate::terminal::{VtForegroundProcess, VtForegroundProcessTarget, VtReplyMsg, VtWriteMsg, VtWriteView};

verus! {

/// A new shell becomes the foreground peer of its terminal.
pub fn set_shell_foreground(shell: Option<&Shell>) -> (peer: Option<VtForegroundProcess>)
    ensures
        match shell {
            Some(s) => peer == Some(VtForegroundProcess(s.term)),
            None => peer is None,
        },
{
    match shell {
        Some(s) => Some(VtForegroundProcess(s.term())),
        None => None,
    }
}

/// A process selected as a shell's input owner becomes the foreground peer
/// of the shell's terminal, whether or not it belongs to that shell's
/// foreground group; nothing happens when the selected entity is not a shell.
pub fn set_process_foreground(
    selection: Option<&ForegroundInputProcess>,
    selected_shell: Option<&Shell>,
) -> (peer: Option<VtForegroundProcess>)
    ensures
        peer is Some <==> selection is Some && selected_shell is Some,
        peer matches Some(p) ==> p == VtForegroundProcess(selected_shell->0.term),
{
    if selection.is_none() {
        return None;
    }
    match selected_shell {
        Some(s) => Some(VtForegroundProcess(s.term())),
        None => None,
    }
}

/// A process that leaves a shell's foreground group loses its input
/// selection for that shell.
pub fn clear_process_foreground(
    membership: Option<&ForegroundProcess>,
    selection: Option<&ForegroundInputProcess>,
) -> (remove_selection: bool)
    ensures
        remove_selection <==> (membership matches Some(m) && selection matches Some(sel) && sel.spec_shell() == m.0),
        remove_selection == clears_selection(
            match membership {
                Some(m) => Some(m.0),
                None => None,
            },
            match selection {
                Some(sel) => Some(sel.spec_shell()),
                None => None,
            },
        ),
{
    match (membership, selection) {
        (Some(m), Some(sel)) => sel.shell() == m.shell(),
        _ => false,
    }
}

/// Once a shell's input selection is removed and no other process is
/// selected, the shell becomes the foreground peer of its terminal again,
/// provided the terminal still has its endpoint.
pub fn fallback_to_shell_foreground(
    has_input_target: bool,
    shell: Option<&Shell>,
    terminal_has_endpoint: bool,
) -> (peer: Option<VtForegroundProcess>)
    ensures
        peer is Some <==> !has_input_target && shell is Some && terminal_has_endpoint,
        peer matches Some(p) ==> p == VtForegroundProcess(shell->0.term),
{
    if has_input_target {
        return None;
    }
    let s = match shell {
        Some(s) => s,
        None => return None,
    };
    if !terminal_has_endpoint {
        return None;
    }
    Some(VtForegroundProcess(s.term()))
}

/// The foreground peer of a shell's terminal: its input owner if it has
/// one, the shell itself otherwise.
pub open spec fn foreground_peer(shell: Entity, input: Option<ForegroundInputProcessTarget>) -> Entity {
    match input {
        Some(t) => t.spec_process(),
        None => shell,
    }
}

/// The terminal of a shell with an input owner is in front of that owner;
/// without one it is in front of the shell.
pub proof fn input_owner_is_in_front(shell: Entity, t: ForegroundInputProcessTarget)
    ensures
        foreground_peer(shell, Some(t)) == t.spec_process(),
        foreground_peer(shell, None) == shell,
{
}

/// A shell whose foreground group is empty owns its terminal: while every
/// selected input owner belongs to the group it is selected for (which
/// foreground transitions, spawning, leaving a group and process cleanup
/// keep), an empty group leaves the shell without an input owner, its input
/// target is empty, and the terminal's foreground peer is the shell itself.
pub proof fn empty_group_leaves_terminal_to_shell(
    membership: Map<Entity, Entity>,
    selection: Map<Entity, Entity>,
    shell: Entity,
    input: Option<ForegroundInputProcessTarget>,
)
    requires
        selections_in_groups(membership, selection),
        related_to(membership, shell) == Set::<Entity>::empty(),
        input matches Some(t) ==> related_to(selection, shell).contains(t.spec_process()),
    ensures
        input is None,
        foreground_peer(shell, input) == shell,
        terminal_peer(selection, shell) == shell,
{
    if let Some(t) = input {
        assert(related_to(membership, shell).contains(t.spec_process()));
    }
    assert forall|p: Entity| !#[trigger] related_to(selection, shell).contains(p) by {
        if related_to(selection, shell).contains(p) {
            assert(related_to(membership, shell).contains(p));
        }
    }
}

/// The shell of an entry of a relation, if the relation has one for `p`.
pub open spec fn entry(relation: Map<Entity, Entity>, p: Entity) -> Option<Entity> {
    if relation.contains_key(p) {
        Some(relation[p])
    } else {
        None
    }
}

/// Whether `clear_process_foreground` removes the input selection of a
/// process that leaves the group of `member`, given the shell it is
/// selected for, if any.
pub open spec fn clears_selection(member: Option<Entity>, selected: Option<Entity>) -> bool {
    member is Some && selected == member
}

/// Leaving a foreground group keeps every selected input owner inside its
/// group: the process that leaves loses its selection when it was selected
/// for the same shell.
pub proof fn leaving_a_group_keeps_selections_in_groups(
    membership: Map<Entity, Entity>,
    selection: Map<Entity, Entity>,
    p: Entity,
)
    requires
        selections_in_groups(membership, selection),
    ensures
        selections_in_groups(
            membership.remove(p),
            if clears_selection(entry(membership, p), entry(selection, p)) {
                selection.remove(p)
            } else {
                selection
            },
        ),
{
}

/// Projects the existing shells onto their terminals when the terminal
/// backend is installed: for each shell, its foreground peer gets the
/// shell's terminal.
pub fn backfill_terminal_foreground(
    shells: &Vec<(Entity, Shell, Option<ForegroundInputProcessTarget>)>,
) -> (peers: Vec<(Entity, VtForegroundProcess)>)
    ensures
        peers@.len() == shells@.len(),
        forall|i: int| 0 <= i < shells@.len() ==> #[trigger] peers@[i] == (
            foreground_peer(shells@[i].0, shells@[i].2),
            VtForegroundProcess(shells@[i].1.term),
        ),
{
    let mut peers: Vec<(Entity, VtForegroundProcess)> = Vec::new();
    let n = shells.len();
    for i in 0..n
        invariant
            n == shells@.len(),
            peers@.len() == i,
            forall|j: int| 0 <= j < i ==> #[trigger] peers@[j] == (
                foreground_peer(shells@[j].0, shells@[j].2),
                VtForegroundProcess(shells@[j].1.term),
            ),
    {
        let (shell, s, input) = shells[i];
        let peer = match input {
            Some(t) => t.process(),
            None => shell,
        };
        peers.push((peer, VtForegroundProcess(s.term())));
    }
    peers
}

/// The jobs of `shell` among `jobs`, in order.
pub open spec fn jobs_of(shell: Entity, jobs: Seq<(Entity, ShellJob)>) -> Seq<Entity>
    decreases jobs.len(),
{
    if jobs.len() == 0 {
        Seq::empty()
    } else {
        let rest = jobs_of(shell, jobs.drop_last());
        if jobs.last().1.0 == shell {
            rest.push(jobs.last().0)
        } else {
            rest
        }
    }
}

/// The jobs of a shell among one list followed by another are its jobs
/// among the first list followed by its jobs among the second: listing
/// keeps the order of the jobs and drops only other shells' jobs.
pub proof fn jobs_of_consecutive_lists(shell: Entity, first: Seq<(Entity, ShellJob)>, second: Seq<(Entity, ShellJob)>)
    ensures
        jobs_of(shell, first + second) == jobs_of(shell, first) + jobs_of(shell, second),
    decreases second.len(),
{
    if second.len() == 0 {
        assert(first + second =~= first);
        assert(jobs_of(shell, first) + jobs_of(shell, second) =~= jobs_of(shell, first));
    } else {
        jobs_of_consecutive_lists(shell, first, second.drop_last());
        assert((first + second).drop_last() =~= first + second.drop_last());
        assert((first + second).last() == second.last());
        let a = jobs_of(shell, first);
        let b = jobs_of(shell, second.drop_last());
        assert((a + b).push(second.last().0) =~= a + b.push(second.last().0));
    }
}

/// A job is listed for a shell exactly when it belongs to that shell.
pub proof fn jobs_of_one_job(shell: Entity, job: Entity, owner: ShellJob)
    ensures
        jobs_of(shell, seq![(job, owner)]) == if owner.0 == shell {
            seq![job]
        } else {
            Seq::<Entity>::empty()
        },
{
    assert(seq![(job, owner)].drop_last() =~= Seq::<(Entity, ShellJob)>::empty());
    assert(seq![(job, owner)].last() == (job, owner));
    assert(jobs_of(shell, seq![(job, owner)].drop_last()) == Seq::<Entity>::empty());
    assert(Seq::<Entity>::empty().push(job) =~= seq![job]);
}

/// What closing a terminal's endpoint does.
#[derive(Debug, PartialEq, Eq)]
pub struct HangUp {
    /// The entity that stops being the terminal's foreground peer.
    pub clear_foreground: Option<Entity>,
    pub signals: Vec<SignalMsg>,
}

/// Closing a shell's terminal endpoint hangs up: the terminal's foreground
/// peer stops being its foreground, and the shell and each of its jobs get
/// a hang-up signal from that terminal. A terminal without a shell is left
/// alone; without a signal channel no signal is sent.
pub fn hang_up_terminal(
    terminal: Entity,
    target: Option<&ShellTarget>,
    foreground: Option<&VtForegroundProcessTarget>,
    signals_available: bool,
    jobs: &Vec<(Entity, ShellJob)>,
) -> (h: HangUp)
    ensures
        target is None ==> h.clear_foreground is None && h.signals@.len() == 0,
        target matches Some(t) ==> {
            &&& h.clear_foreground == match foreground {
                Some(f) => Some(f.0),
                None => None::<Entity>,
            }
            &&& !signals_available ==> h.signals@.len() == 0
            &&& signals_available ==> h.signals@.map_values(|s: SignalMsg| s.target) == seq![t.spec_shell()] + jobs_of(
                t.spec_shell(),
                jobs@,
            )
            &&& forall|i: int| 0 <= i < h.signals@.len() ==> #[trigger] h.signals@[i].term == terminal
                && h.signals@[i].signal == Sig::Hup
        },
{
    let mut signals: Vec<SignalMsg> = Vec::new();
    let shell = match target {
        Some(t) => t.target(),
        None => return HangUp { clear_foreground: None, signals },
    };
    let clear_foreground = match foreground {
        Some(f) => Some(f.process()),
        None => None,
    };
    if !signals_available {
        return HangUp { clear_foreground, signals };
    }
    signals.push(SignalMsg { term: terminal, target: shell, signal: Sig::Hup });
    let n = jobs.len();
    for i in 0..n
        invariant
            n == jobs@.len(),
            signals@.map_values(|s: SignalMsg| s.target) == seq![shell] + jobs_of(shell, jobs@.take(i as int)),
            forall|k: int| 0 <= k < signals@.len() ==> #[trigger] signals@[k].term == terminal
                && signals@[k].signal == Sig::Hup,
    {
        assert(jobs@.take(i + 1).drop_last() =~= jobs@.take(i as int));
        let ghost before = signals@;
        let (job, owner) = jobs[i];
        if owner.0 == shell {
            signals.push(SignalMsg { term: terminal, target: job, signal: Sig::Hup });
            assert(signals@.map_values(|s: SignalMsg| s.target) =~= before.map_values(|s: SignalMsg| s.target).push(job));
        }
    }
    assert(jobs@.take(n as int) =~= jobs@);
    HangUp { clear_foreground, signals }
}

/// Whether a process write goes to a terminal: its endpoint is a terminal
/// endpoint, and that terminal still has its endpoint.
pub open spec fn admitted(write: (EndpointWriteMsg, bool)) -> bool {
    write.0.endpoint.terminal && write.1
}

/// The terminal writes that a run of process writes becomes, in order.
pub open spec fn terminal_writes(writes: Seq<(EndpointWriteMsg, bool)>) -> Seq<VtWriteView>
    decreases writes.len(),
{
    if writes.len() == 0 {
        Seq::empty()
    } else {
        let rest = terminal_writes(writes.drop_last());
        let w = writes.last();
        if admitted(w) {
            rest.push(VtWriteView { term: w.0.endpoint.entity, from: Some(w.0.process), bytes: w.0.payload@ })
        } else {
            rest
        }
    }
}

/// Terminal writes keep the order of the process writes: the writes of a
/// run followed by another reach the terminals as the writes of the first
/// run followed by those of the second, so output split over two frames
/// arrives as it would in one.
pub proof fn terminal_writes_of_consecutive_runs(
    first: Seq<(EndpointWriteMsg, bool)>,
    second: Seq<(EndpointWriteMsg, bool)>,
)
    ensures
        terminal_writes(first + second) == terminal_writes(first) + terminal_writes(second),
    decreases second.len(),
{
    if second.len() == 0 {
        assert(first + second =~= first);
        assert(terminal_writes(first) + terminal_writes(second) =~= terminal_writes(first));
    } else {
        terminal_writes_of_consecutive_runs(first, second.drop_last());
        assert((first + second).drop_last() =~= first + second.drop_last());
        assert((first + second).last() == second.last());
        let a = terminal_writes(first);
        let b = terminal_writes(second.drop_last());
        let w = second.last();
        let v = VtWriteView { term: w.0.endpoint.entity, from: Some(w.0.process), bytes: w.0.payload@ };
        assert((a + b).push(v) =~= a + b.push(v));
    }
}

/// One process write becomes one terminal write, to the terminal of its
/// endpoint, from the writing process and with its bytes unchanged, when
/// its endpoint is a terminal endpoint that still exists; otherwise it
/// becomes none.
pub proof fn terminal_write_of_one_write(w: (EndpointWriteMsg, bool))
    ensures
        terminal_writes(seq![w]) == if w.0.endpoint.terminal && w.1 {
            seq![VtWriteView { term: w.0.endpoint.entity, from: Some(w.0.process), bytes: w.0.payload@ }]
        } else {
            Seq::<VtWriteView>::empty()
        },
        terminal_writes(Seq::empty()) == Seq::<VtWriteView>::empty(),
{
    assert(seq![w].drop_last() =~= Seq::<(EndpointWriteMsg, bool)>::empty());
    assert(seq![w].last() == w);
    assert(terminal_writes(seq![w].drop_last()) == Seq::<VtWriteView>::empty());
    let v = VtWriteView { term: w.0.endpoint.entity, from: Some(w.0.process), bytes: w.0.payload@ };
    assert(Seq::<VtWriteView>::empty().push(v) =~= seq![v]);
}

/// Turns process output routed to terminal endpoints into terminal writes
/// from those processes; output for other endpoints is left to them, and
/// output for a terminal that lost its endpoint is discarded. Each write
/// comes with whether its terminal still has its endpoint.
pub fn write_terminal_output(writes: &Vec<(EndpointWriteMsg, bool)>, writer_available: bool) -> (out: Vec<VtWriteMsg>)
    ensures
        !writer_available ==> out@.len() == 0,
        writer_available ==> out@.map_values(|w: VtWriteMsg| w@) == terminal_writes(writes@),
{
    let mut out: Vec<VtWriteMsg> = Vec::new();
    if !writer_available {
        return out;
    }
    let n = writes.len();
    for i in 0..n
        invariant
            n == writes@.len(),
            out@.map_values(|w: VtWriteMsg| w@) == terminal_writes(writes@.take(i as int)),
    {
        assert(writes@.take(i + 1).drop_last() =~= writes@.take(i as int));
        let ghost before = out@;
        let w = &writes[i];
        if w.0.endpoint.terminal && w.1 {
            let bytes = vstd::slice::slice_to_vec(w.0.payload.as_slice());
            let msg = VtWriteMsg { term: w.0.endpoint.entity, from: Some(w.0.process), bytes };
            out.push(msg);
            assert(out@.map_values(|w: VtWriteMsg| w@) =~= before.map_values(|w: VtWriteMsg| w@).push(msg@));
        }
    }
    assert(writes@.take(n as int) =~= writes@);
    out
}

/// A terminal reply with what routing it needs: the terminal's foreground
/// peer (none when the terminal has no endpoint) and that peer's stdin.
#[derive(Debug, PartialEq, Eq)]
pub struct ReplyRoute {
    pub reply: VtReplyMsg,
    pub foreground: Option<Entity>,
    pub stdin: Option<EndpointHandle>,
}

/// The process input that a run of terminal replies becomes, in order: a
/// reply reaches the terminal's foreground peer only when that peer's stdin
/// is the terminal's endpoint.
pub open spec fn reply_inputs(routes: Seq<ReplyRoute>) -> Seq<ProcessInputView>
    decreases routes.len(),
{
    if routes.len() == 0 {
        Seq::empty()
    } else {
        let rest = reply_inputs(routes.drop_last());
        let r = routes.last();
        if r.foreground is Some && reads_terminal(r.reply.term, r.stdin) {
            rest.push(ProcessInputView {
                process: r.foreground->0,
                fd: FileDescriptor::spec_stdin(),
                endpoint: r.stdin->0,
                payload: PayloadView::Bytes(r.reply.bytes@),
            })
        } else {
            rest
        }
    }
}

/// Replies keep their order: the replies of a run followed by another give
/// the input of the first run followed by that of the second.
pub proof fn reply_inputs_of_consecutive_runs(first: Seq<ReplyRoute>, second: Seq<ReplyRoute>)
    ensures
        reply_inputs(first + second) == reply_inputs(first) + reply_inputs(second),
    decreases second.len(),
{
    if second.len() == 0 {
        assert(first + second =~= first);
        assert(reply_inputs(first) + reply_inputs(second) =~= reply_inputs(first));
    } else {
        reply_inputs_of_consecutive_runs(first, second.drop_last());
        assert((first + second).drop_last() =~= first + second.drop_last());
        assert((first + second).last() == second.last());
        let a = reply_inputs(first);
        let b = reply_inputs(second.drop_last());
        let r = second.last();
        let v = ProcessInputView {
            process: r.foreground->0,
            fd: FileDescriptor::spec_stdin(),
            endpoint: r.stdin->0,
            payload: PayloadView::Bytes(r.reply.bytes@),
        };
        assert((a + b).push(v) =~= a + b.push(v));
    }
}

/// One reply reaches the terminal's foreground peer on stdin (descriptor
/// 0), through the peer's stdin endpoint and with the reply's bytes, exactly
/// when there is such a peer and its stdin is that terminal's endpoint;
/// otherwise it is dropped.
pub proof fn reply_input_of_one_reply(r: ReplyRoute)
    ensures
        reply_inputs(seq![r]) == if r.foreground is Some && r.stdin is Some && r.stdin->0.entity == r.reply.term
            && r.stdin->0.terminal {
            seq![
                ProcessInputView {
                    process: r.foreground->0,
                    fd: FileDescriptor(0),
                    endpoint: r.stdin->0,
                    payload: PayloadView::Bytes(r.reply.bytes@),
                },
            ]
        } else {
            Seq::<ProcessInputView>::empty()
        },
{
    assert(seq![r].drop_last() =~= Seq::<ReplyRoute>::empty());
    assert(seq![r].last() == r);
    assert(reply_inputs(seq![r].drop_last()) == Seq::<ProcessInputView>::empty());
    let v = ProcessInputView {
        process: r.foreground->0,
        fd: FileDescriptor(0),
        endpoint: r.stdin->0,
        payload: PayloadView::Bytes(r.reply.bytes@),
    };
    assert(Seq::<ProcessInputView>::empty().push(v) =~= seq![v]);
}

/// Turns terminal replies into stdin input for each terminal's foreground
/// peer.
pub fn route_terminal_replies(routes: &Vec<ReplyRoute>, reader_available: bool) -> (inputs: Vec<ProcessInputMsg>)
    ensures
        !reader_available ==> inputs@.len() == 0,
        reader_available ==> inputs@.map_values(|m: ProcessInputMsg| m@) == reply_inputs(routes@),
{
    let mut inputs: Vec<ProcessInputMsg> = Vec::new();
    if !reader_available {
        return inputs;
    }
    let n = routes.len();
    for i in 0..n
        invariant
            n == routes@.len(),
            inputs@.map_values(|m: ProcessInputMsg| m@) == reply_inputs(routes@.take(i as int)),
    {
        assert(routes@.take(i + 1).drop_last() =~= routes@.take(i as int));
        let ghost before = inputs@;
        let r = &routes[i];
        let bytes = vstd::slice::slice_to_vec(r.reply.bytes.as_slice());
        match deliver_input(r.reply.term, r.foreground, r.stdin, TerminalInputPayload::Bytes(bytes)) {
            Some(msg) => {
                inputs.push(msg);
                assert(inputs@.map_values(|m: ProcessInputMsg| m@) =~= before.map_values(|m: ProcessInputMsg| m@).push(msg@));
            },
            None => {},
        }
    }
    assert(routes@.take(n as int) =~= routes@);
    inputs
}

} // verus!
