//! Spawns a process in response to a shell spawn request.
//!
//! The terminal entity used for stdio is taken directly from the target shell.

use std::collections::HashMap;

use vstd::prelude::*;

use crate::data::shell::{selections_in_groups, ForegroundInputProcess, ForegroundProcess, Shell, ShellJob, ShellSpawnMsg};
use crate::process::{EndpointHandle, Entity, ProcessSpec, StandardDescriptors};

verus! {

/// The terminal of a shell that still lacks its I/O endpoint component, if any.
pub fn endpoint_to_insert(shell: Option<&Shell>, terminal_has_endpoint: bool) -> (term: Option<Entity>)
    ensures
        term is Some <==> shell is Some && !terminal_has_endpoint,
        term matches Some(t) ==> t == shell->0.term,
{
    match shell {
        Some(s) => if terminal_has_endpoint {
            None
        } else {
            Some(s.term())
        },
        None => None,
    }
}

/// Opens a shell process's stdin, stdout and stderr on its terminal's
/// endpoint; without an endpoint handle the descriptors are left alone.
pub fn configure_shell_process_io(descriptors: &mut StandardDescriptors, terminal: Option<EndpointHandle>)
    ensures
        terminal matches Some(h) ==> final(descriptors).all_on(h),
        terminal is None ==> *final(descriptors) == *old(descriptors),
{
    if let Some(h) = terminal {
        descriptors.set_all(h);
    }
}

/// A spawn request accepted for a shell, waiting for its terminal's endpoint.
#[derive(Debug, PartialEq, Eq)]
pub struct PendingSpawn {
    pub shell: Entity,
    pub terminal: Entity,
    pub prog: String,
    pub argv: Vec<String>,
    pub environ: HashMap<String, String>,
}

/// A process to spawn as one of a shell's jobs, with its standard
/// descriptors and its place in the shell's foreground.
#[derive(Debug, PartialEq, Eq)]
pub struct SpawnedProcess {
    pub process: ProcessSpec,
    pub descriptors: StandardDescriptors,
    pub job: ShellJob,
    pub foreground: ForegroundProcess,
    pub input: ForegroundInputProcess,
}

/// Accepts a spawn request addressed to a shell; requests for an entity
/// that is not a shell are dropped.
pub fn accept_spawn(msg: ShellSpawnMsg, shell: Option<&Shell>) -> (pending: Option<PendingSpawn>)
    ensures
        pending is Some <==> shell is Some,
        pending matches Some(p) ==> {
            &&& p.shell == msg.shell
            &&& p.terminal == shell->0.term
            &&& p.prog == msg.prog
            &&& p.argv == msg.argv
            &&& p.environ == msg.environ
        },
{
    match shell {
        Some(s) => Some(PendingSpawn {
            shell: msg.shell,
            terminal: s.term(),
            prog: msg.prog,
            argv: msg.argv,
            environ: msg.environ,
        }),
        None => None,
    }
}

/// The abstract value of an accepted spawn request.
pub struct PendingView {
    pub shell: Entity,
    pub terminal: Entity,
    pub prog: Seq<char>,
    pub argv: Seq<Seq<char>>,
    pub environ: Map<String, String>,
}

impl View for PendingSpawn {
    type V = PendingView;

    open spec fn view(&self) -> PendingView {
        PendingView {
            shell: self.shell,
            terminal: self.terminal,
            prog: self.prog@,
            argv: self.argv.deep_view(),
            environ: self.environ@,
        }
    }
}

/// The abstract value of a pending spawn keeps its shell, terminal,
/// program, arguments in order and environment.
pub proof fn pending_view_keeps_every_field(p: PendingSpawn)
    ensures
        p@.shell == p.shell,
        p@.terminal == p.terminal,
        p@.prog == p.prog@,
        p@.argv.len() == p.argv@.len(),
        forall|i: int| 0 <= i < p.argv@.len() ==> #[trigger] p@.argv[i] == p.argv@[i]@,
        p@.environ == p.environ@,
{
}

/// The spawns that a batch of requests, each with the shell it addresses
/// (if that entity is a shell), leads to: one per request to a shell, in
/// order.
pub open spec fn accepted_spawns(requests: Seq<(ShellSpawnMsg, Option<Shell>)>) -> Seq<PendingView>
    decreases requests.len(),
{
    if requests.len() == 0 {
        Seq::empty()
    } else {
        let rest = accepted_spawns(requests.drop_last());
        let (msg, shell) = requests.last();
        match shell {
            Some(s) => rest.push(
                PendingView {
                    shell: msg.shell,
                    terminal: s.term,
                    prog: msg.prog@,
                    argv: msg.argv.deep_view(),
                    environ: msg.environ@,
                },
            ),
            None => rest,
        }
    }
}

/// A request addressed to a shell is accepted unchanged: its pending spawn
/// carries the request's shell, program, arguments and environment as they
/// are, and the terminal of the shell it addresses. A request for an entity
/// that is not a shell gives no spawn.
pub proof fn each_request_is_accepted_unchanged(msg: ShellSpawnMsg, shell: Option<Shell>)
    ensures
        accepted_spawns(seq![(msg, shell)]) == match shell {
            Some(s) => seq![
                PendingView {
                    shell: msg.shell,
                    terminal: s.term,
                    prog: msg.prog@,
                    argv: msg.argv.deep_view(),
                    environ: msg.environ@,
                },
            ],
            None => Seq::<PendingView>::empty(),
        },
{
    let one = seq![(msg, shell)];
    assert(one.drop_last() =~= Seq::<(ShellSpawnMsg, Option<Shell>)>::empty());
    assert(one.last() == (msg, shell));
    assert(accepted_spawns(one.drop_last()) == Seq::<PendingView>::empty());
    if let Some(s) = shell {
        let v = PendingView {
            shell: msg.shell,
            terminal: s.term,
            prog: msg.prog@,
            argv: msg.argv.deep_view(),
            environ: msg.environ@,
        };
        assert(Seq::<PendingView>::empty().push(v) =~= seq![v]);
    }
}

/// The spawns of a batch of requests followed by another are the spawns of
/// the first batch followed by those of the second: requests are accepted
/// one by one, in order, each on its own.
pub proof fn accepted_spawns_of_consecutive_batches(
    first: Seq<(ShellSpawnMsg, Option<Shell>)>,
    second: Seq<(ShellSpawnMsg, Option<Shell>)>,
)
    ensures
        accepted_spawns(first + second) == accepted_spawns(first) + accepted_spawns(second),
    decreases second.len(),
{
    if second.len() == 0 {
        assert(first + second =~= first);
        assert(accepted_spawns(first) + accepted_spawns(second) =~= accepted_spawns(first));
    } else {
        accepted_spawns_of_consecutive_batches(first, second.drop_last());
        assert((first + second).drop_last() =~= first + second.drop_last());
        assert((first + second).last() == second.last());
        let a = accepted_spawns(first);
        let b = accepted_spawns(second.drop_last());
        let (msg, shell) = second.last();
        if let Some(s) = shell {
            let v = PendingView {
                shell: msg.shell,
                terminal: s.term,
                prog: msg.prog@,
                argv: msg.argv.deep_view(),
                environ: msg.environ@,
            };
            assert((a + b).push(v) =~= a + b.push(v));
        }
    }
}

/// Accepts a batch of spawn requests: exactly one spawn for each request
/// addressed to a shell, in the order of the requests.
pub fn spawn_process(requests: Vec<(ShellSpawnMsg, Option<Shell>)>) -> (pending: Vec<PendingSpawn>)
    ensures
        pending@.map_values(|p: PendingSpawn| p@) == accepted_spawns(requests@),
{
    let ghost all = requests@;
    let mut rest = requests;
    let mut pending: Vec<PendingSpawn> = Vec::new();
    let ghost mut k: int = 0;
    while rest.len() > 0
        invariant
            0 <= k <= all.len(),
            rest@ == all.skip(k),
            pending@.map_values(|p: PendingSpawn| p@) == accepted_spawns(all.take(k)),
        decreases rest@.len(),
    {
        let (msg, shell) = rest.remove(0);
        assert(all.take(k + 1).drop_last() =~= all.take(k));
        assert(all[k] == (msg, shell));
        let ghost before = pending@;
        match accept_spawn(msg, shell.as_ref()) {
            Some(p) => {
                pending.push(p);
                assert(pending@.map_values(|p: PendingSpawn| p@) =~= before.map_values(|p: PendingSpawn| p@).push(p@));
            },
            None => {},
        }
        proof {
            k = k + 1;
        }
        assert(rest@ =~= all.skip(k));
    }
    assert(all.take(k) =~= all);
    pending
}

impl PendingSpawn {
    /// Builds the job once its terminal's endpoint handle is known: the job
    /// reads and writes the terminal on all three standard descriptors, and
    /// joins the shell as a job, a foreground member and the input owner.
    /// Without a handle (the terminal lost its endpoint) nothing is spawned.
    pub fn spawn(self, terminal: Option<EndpointHandle>) -> (spawned: Option<SpawnedProcess>)
        ensures
            spawned is Some <==> terminal is Some,
            spawned matches Some(s) ==> {
                &&& s.process.prog == self.prog
                &&& s.process.argv == self.argv
                &&& s.process.environ == self.environ
                &&& s.descriptors.all_on(terminal->0)
                &&& s.job == ShellJob(self.shell)
                &&& s.foreground == ForegroundProcess(self.shell)
                &&& s.input.spec_shell() == self.shell
            },
    {
        let handle = match terminal {
            Some(h) => h,
            None => return None,
        };
        let mut descriptors = StandardDescriptors::closed();
        descriptors.set_all(handle);
        Some(SpawnedProcess {
            process: ProcessSpec { prog: self.prog, argv: self.argv, environ: self.environ },
            descriptors,
            job: ShellJob(self.shell),
            foreground: ForegroundProcess::new(self.shell),
            input: ForegroundInputProcess::new(self.shell),
        })
    }
}

/// Spawning a job keeps every selected input owner inside the group it is
/// selected for: the job joins the same shell's group that it is selected
/// for, as `PendingSpawn::spawn` gives it.
pub proof fn spawning_keeps_selections_in_groups(
    membership: Map<Entity, Entity>,
    selection: Map<Entity, Entity>,
    process: Entity,
    spawned: SpawnedProcess,
)
    requires
        selections_in_groups(membership, selection),
        spawned.foreground.0 == spawned.input.spec_shell(),
    ensures
        selections_in_groups(
            membership.insert(process, spawned.foreground.0),
            selection.insert(process, spawned.input.spec_shell()),
        ),
{
}

} // verus!
