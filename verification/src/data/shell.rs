//! A special process used to control other processes, and the relations
//! between a shell, its terminal and its jobs.

use std::collections::HashMap;

use vstd::prelude::*;
use vstd::string::*;

use crate::process::Entity;

verus! {

/// A shell attached to a terminal entity.
#[derive(Clone, Copy, Debug, PartialEq, Eq, Structural)]
pub struct Shell {
    pub term: Entity,
}

impl Shell {
    /// Creates a shell attached to `term`.
    pub fn new(term: Entity) -> (s: Self)
        ensures
            s.term == term,
    {
        Shell { term }
    }

    /// The terminal this shell is attached to.
    pub fn term(&self) -> (t: Entity)
        ensures
            t == self.term,
    {
        self.term
    }
}

/// A request that a shell start a program as one of its jobs.
#[derive(Debug, PartialEq, Eq)]
pub struct ShellSpawnMsg {
    /// The name of the program to run.
    pub prog: String,
    pub shell: Entity,
    /// The arguments, without the program name.
    pub argv: Vec<String>,
    pub environ: HashMap<String, String>,
}

impl ShellSpawnMsg {
    /// A request to run `prog` with no arguments and an empty environment.
    pub fn new(prog: String, shell: Entity) -> (m: Self)
        ensures
            m.prog == prog,
            m.shell == shell,
            m.argv@.len() == 0,
            m.environ@ == Map::<String, String>::empty(),
    {
        ShellSpawnMsg { prog, shell, argv: Vec::new(), environ: HashMap::new() }
    }

    /// A request to run `prog` with `argv` and an empty environment.
    pub fn with_args(prog: String, shell: Entity, argv: Vec<String>) -> (m: Self)
        ensures
            m.prog == prog,
            m.shell == shell,
            m.argv == argv,
            m.environ@ == Map::<String, String>::empty(),
    {
        ShellSpawnMsg { prog, shell, argv, environ: HashMap::new() }
    }
}

/// Marks a terminal entity as a byte-oriented process I/O endpoint.
#[derive(Clone, Copy, Debug, Default, PartialEq, Eq, Structural)]
pub struct TerminalIoEndpoint;

/// Held by a terminal: the shell attached to it.
#[derive(Clone, Copy, Debug, PartialEq, Eq, Structural)]
pub struct ShellTarget {
    shell: Entity,
}

impl ShellTarget {
    pub closed spec fn spec_shell(&self) -> Entity {
        self.shell
    }

    pub fn new(shell: Entity) -> (t: Self)
        ensures
            t.spec_shell() == shell,
    {
        ShellTarget { shell }
    }

    pub fn target(&self) -> (s: Entity)
        ensures
            s == self.spec_shell(),
    {
        self.shell
    }
}

/// Marker for a process owned by a shell.
#[derive(Clone, Copy, Debug, PartialEq, Eq, Structural)]
pub struct ShellJob(pub Entity);

/// Processes owned by a shell.
#[derive(Clone, Debug, PartialEq, Eq)]
pub struct ShellJobTarget {
    jobs: Vec<Entity>,
}

impl ShellJobTarget {
    pub closed spec fn spec_jobs(&self) -> Seq<Entity> {
        self.jobs@
    }

    pub fn new(jobs: Vec<Entity>) -> (t: Self)
        ensures
            t.spec_jobs() == jobs@,
    {
        ShellJobTarget { jobs }
    }

    pub fn jobs(&self) -> (jobs: &[Entity])
        ensures
            jobs@ == self.spec_jobs(),
    {
        self.jobs.as_slice()
    }
}

/// The processes whose stdio goes straight to the shell's terminal. When it
/// is empty, the shell itself owns the terminal.
#[derive(Clone, Debug, Default, PartialEq, Eq)]
pub struct ForegroundProcessGroup {
    processes: Vec<Entity>,
}

impl ForegroundProcessGroup {
    pub closed spec fn spec_processes(&self) -> Seq<Entity> {
        self.processes@
    }

    pub fn new(processes: Vec<Entity>) -> (g: Self)
        ensures
            g.spec_processes() == processes@,
    {
        ForegroundProcessGroup { processes }
    }

    pub fn processes(&self) -> (processes: &[Entity])
        ensures
            processes@ == self.spec_processes(),
    {
        self.processes.as_slice()
    }
}

/// Held by the one process that receives terminal input for a shell.
#[derive(Clone, Copy, Debug, PartialEq, Eq, Structural)]
pub struct ForegroundInputProcess(Entity);

impl ForegroundInputProcess {
    pub closed spec fn spec_shell(&self) -> Entity {
        self.0
    }

    pub fn new(shell: Entity) -> (p: Self)
        ensures
            p.spec_shell() == shell,
    {
        ForegroundInputProcess(shell)
    }

    pub fn shell(&self) -> (s: Entity)
        ensures
            s == self.spec_shell(),
    {
        self.0
    }
}

/// Held by a shell: the process selected to receive its terminal's input.
#[derive(Clone, Copy, Debug, PartialEq, Eq, Structural)]
pub struct ForegroundInputProcessTarget(Entity);

impl ForegroundInputProcessTarget {
    pub closed spec fn spec_process(&self) -> Entity {
        self.0
    }

    pub fn new(process: Entity) -> (t: Self)
        ensures
            t.spec_process() == process,
    {
        ForegroundInputProcessTarget(process)
    }

    pub fn process(&self) -> (p: Entity)
        ensures
            p == self.spec_process(),
    {
        self.0
    }
}

/// Held by a process in a shell's foreground process group: that shell.
#[derive(Clone, Copy, Debug, PartialEq, Eq, Structural)]
pub struct ForegroundProcess(pub Entity);

impl ForegroundProcess {
    pub fn new(shell: Entity) -> (p: Self)
        ensures
            p.0 == shell,
    {
        ForegroundProcess(shell)
    }

    pub fn shell(&self) -> (s: Entity)
        ensures
            s == self.0,
    {
        self.0
    }
}

/// Why a foreground job transition was refused.
#[derive(Clone, Copy, Debug, PartialEq, Eq, Structural)]
pub enum ForegroundJobError {
    /// The shell has no foreground process group.
    MissingShell,
    /// A process of the new group is not a live process.
    DeadProcess,
    /// The selected input owner is not in the new group.
    InputOutsideGroup,
}

/// The component changes that replace a shell's foreground job: remove the
/// membership of every process of the previous group and the previous input
/// selection, then add the new members and the new input owner.
#[derive(Debug, PartialEq, Eq)]
pub struct ForegroundJobPlan {
    pub shell: Entity,
    pub clear_members: Vec<Entity>,
    pub clear_input: Option<Entity>,
    pub members: Vec<Entity>,
    pub input: Option<Entity>,
}

/// The abstract value of a foreground job plan.
pub struct ForegroundJobPlanView {
    pub shell: Entity,
    pub clear_members: Seq<Entity>,
    pub clear_input: Option<Entity>,
    pub members: Seq<Entity>,
    pub input: Option<Entity>,
}

impl View for ForegroundJobPlan {
    type V = ForegroundJobPlanView;

    open spec fn view(&self) -> ForegroundJobPlanView {
        ForegroundJobPlanView {
            shell: self.shell,
            clear_members: self.clear_members@,
            clear_input: self.clear_input,
            members: self.members@,
            input: self.input,
        }
    }
}

/// The entities of a requested job, each paired with whether it is a live process.
pub open spec fn job_entities(processes: Seq<(Entity, bool)>) -> Seq<Entity> {
    processes.map_values(|p: (Entity, bool)| p.0)
}

pub open spec fn all_alive(processes: Seq<(Entity, bool)>) -> bool {
    forall|i: int| 0 <= i < processes.len() ==> #[trigger] processes[i].1
}

/// The outcome of replacing a shell's foreground job: refused when the shell
/// has no group, when a process is not alive, or when the input owner is not
/// in the new group; otherwise the previous group and input owner are
/// replaced by the new ones.
pub open spec fn foreground_job(
    shell: Entity,
    group: Option<Seq<Entity>>,
    previous_input: Option<Entity>,
    processes: Seq<(Entity, bool)>,
    input: Option<Entity>,
) -> Result<ForegroundJobPlanView, ForegroundJobError> {
    if group is None {
        Err(ForegroundJobError::MissingShell)
    } else if !all_alive(processes) {
        Err(ForegroundJobError::DeadProcess)
    } else if input matches Some(p) && !job_entities(processes).contains(p) {
        Err(ForegroundJobError::InputOutsideGroup)
    } else {
        Ok(ForegroundJobPlanView {
            shell,
            clear_members: group->0,
            clear_input: previous_input,
            members: job_entities(processes),
            input,
        })
    }
}

pub open spec fn plan_view(r: Result<ForegroundJobPlan, ForegroundJobError>) -> Result<ForegroundJobPlanView, ForegroundJobError> {
    match r {
        Ok(plan) => Ok(plan@),
        Err(e) => Err(e),
    }
}

/// Replaces the complete foreground process group of `shell` and its
/// optional stdin owner. `group` is the shell's current group (none if the
/// shell is missing), `previous_input` its current input selection, and each
/// requested process comes with whether it is a live process.
pub fn plan_foreground_job(
    shell: Entity,
    group: Option<&ForegroundProcessGroup>,
    previous_input: Option<&ForegroundInputProcessTarget>,
    processes: &Vec<(Entity, bool)>,
    input: Option<Entity>,
) -> (r: Result<ForegroundJobPlan, ForegroundJobError>)
    ensures
        plan_view(r) == foreground_job(
            shell,
            match group {
                Some(g) => Some(g.spec_processes()),
                None => None,
            },
            match previous_input {
                Some(t) => Some(t.spec_process()),
                None => None,
            },
            processes@,
            input,
        ),
{
    let current = match group {
        Some(g) => g,
        None => return Err(ForegroundJobError::MissingShell),
    };
    let n = processes.len();
    let mut members: Vec<Entity> = Vec::new();
    for i in 0..n
        invariant
            n == processes@.len(),
            group == Some(current),
            all_alive(processes@.take(i as int)),
            members@ == job_entities(processes@.take(i as int)),
    {
        if !processes[i].1 {
            assert(!processes@[i as int].1);
            assert(!all_alive(processes@));
            return Err(ForegroundJobError::DeadProcess);
        }
        members.push(processes[i].0);
        assert(processes@.take(i + 1) =~= processes@.take(i as int).push(processes@[i as int]));
        assert(members@ =~= job_entities(processes@.take(i + 1)));
    }
    assert(processes@.take(n as int) =~= processes@);
    if let Some(p) = input {
        let mut found = false;
        for j in 0..n
            invariant
                n == members@.len(),
                found <==> exists|k: int| 0 <= k < j && members@[k] == p,
        {
            if members[j] == p {
                found = true;
            }
        }
        if !found {
            return Err(ForegroundJobError::InputOutsideGroup);
        }
    }
    let clear_members = vstd::slice::slice_to_vec(current.processes());
    let clear_input = match previous_input {
        Some(t) => Some(t.process()),
        None => None,
    };
    Ok(ForegroundJobPlan { shell, clear_members, clear_input, members, input })
}

/// When a foreground transition is refused, and what an accepted one
/// replaces: a shell without a group is refused first, then a request with
/// a process that is not alive, then an input owner that is not one of the
/// requested processes; any other request is accepted, and its plan clears
/// the shell's whole previous group and input owner and installs the
/// requested processes, in the order requested, and the requested owner.
pub proof fn foreground_job_refuses_exactly(
    shell: Entity,
    group: Option<Seq<Entity>>,
    previous_input: Option<Entity>,
    processes: Seq<(Entity, bool)>,
    input: Option<Entity>,
)
    ensures
        group is None ==> foreground_job(shell, group, previous_input, processes, input) == Err::<
            ForegroundJobPlanView,
            ForegroundJobError,
        >(ForegroundJobError::MissingShell),
        group is Some && (exists|i: int| 0 <= i < processes.len() && !#[trigger] processes[i].1) ==> foreground_job(
            shell,
            group,
            previous_input,
            processes,
            input,
        ) == Err::<ForegroundJobPlanView, ForegroundJobError>(ForegroundJobError::DeadProcess),
        ({
            &&& group is Some
            &&& forall|i: int| 0 <= i < processes.len() ==> #[trigger] processes[i].1
            &&& input is Some
            &&& forall|i: int| 0 <= i < processes.len() ==> #[trigger] processes[i].0 != input->0
        }) ==> foreground_job(shell, group, previous_input, processes, input) == Err::<
            ForegroundJobPlanView,
            ForegroundJobError,
        >(ForegroundJobError::InputOutsideGroup),
        ({
            &&& group is Some
            &&& forall|i: int| 0 <= i < processes.len() ==> #[trigger] processes[i].1
            &&& input is Some ==> exists|i: int| 0 <= i < processes.len() && #[trigger] processes[i].0 == input->0
        }) ==> (foreground_job(shell, group, previous_input, processes, input) matches Ok(plan) && {
            &&& plan.shell == shell
            &&& plan.clear_members == group->0
            &&& plan.clear_input == previous_input
            &&& plan.input == input
            &&& plan.members.len() == processes.len()
            &&& forall|i: int| 0 <= i < processes.len() ==> #[trigger] plan.members[i] == processes[i].0
        }),
{
    let entities = job_entities(processes);
    if let Some(p) = input {
        if entities.contains(p) {
            let k = choose|k: int| 0 <= k < entities.len() && entities[k] == p;
            assert(processes[k].0 == p);
        }
        if exists|i: int| 0 <= i < processes.len() && #[trigger] processes[i].0 == p {
            let i = choose|i: int| 0 <= i < processes.len() && #[trigger] processes[i].0 == p;
            assert(entities[i] == p);
        }
    }
}

/// The processes that a relation map assigns to `shell`.
pub open spec fn related_to(relation: Map<Entity, Entity>, shell: Entity) -> Set<Entity> {
    Set::new(|p: Entity| relation.contains_key(p) && relation[p] == shell)
}

/// Foreground-group membership (process to shell) once a plan is applied:
/// the previous members leave, then the new members join the plan's shell.
pub open spec fn members_after(membership: Map<Entity, Entity>, plan: ForegroundJobPlanView) -> Map<Entity, Entity> {
    Map::new(
        |p: Entity| plan.members.contains(p) || (membership.contains_key(p) && !plan.clear_members.contains(p)),
        |p: Entity| if plan.members.contains(p) { plan.shell } else { membership[p] },
    )
}

/// Input selection (process to shell) once a plan is applied: the previous
/// owner is deselected, then the new owner is selected for the plan's shell.
pub open spec fn selection_after(selection: Map<Entity, Entity>, plan: ForegroundJobPlanView) -> Map<Entity, Entity> {
    Map::new(
        |p: Entity| plan.input == Some(p) || (selection.contains_key(p) && plan.clear_input != Some(p)),
        |p: Entity| if plan.input == Some(p) { plan.shell } else { selection[p] },
    )
}

pub open spec fn optional_set(e: Option<Entity>) -> Set<Entity> {
    match e {
        Some(p) => set![p],
        None => Set::empty(),
    }
}

/// Every selected input owner belongs to the foreground group of the shell
/// it is selected for.
pub open spec fn selections_in_groups(membership: Map<Entity, Entity>, selection: Map<Entity, Entity>) -> bool {
    forall|p: Entity| #[trigger] selection.contains_key(p) ==> membership.contains_key(p) && membership[p] == selection[p]
}

/// The foreground peer of a shell's terminal: the process selected as the
/// shell's input owner, if there is one, the shell itself otherwise.
pub open spec fn terminal_peer(selection: Map<Entity, Entity>, shell: Entity) -> Entity {
    if exists|p: Entity| #[trigger] related_to(selection, shell).contains(p) {
        choose|p: Entity| #[trigger] related_to(selection, shell).contains(p)
    } else {
        shell
    }
}

/// Replacing a foreground job is complete: once an accepted plan is applied
/// to relations that recorded the shell's previous group and input owner,
/// the shell's group is exactly the requested processes, its input owner is
/// exactly the requested one, and that owner belongs to the group.
pub proof fn foreground_job_replaces_group(
    membership: Map<Entity, Entity>,
    selection: Map<Entity, Entity>,
    shell: Entity,
    group: Seq<Entity>,
    previous_input: Option<Entity>,
    processes: Seq<(Entity, bool)>,
    input: Option<Entity>,
)
    requires
        foreground_job(shell, Some(group), previous_input, processes, input) is Ok,
        related_to(membership, shell) == group.to_set(),
        related_to(selection, shell) == optional_set(previous_input),
    ensures
        ({
            let plan = foreground_job(shell, Some(group), previous_input, processes, input)->Ok_0;
            &&& related_to(members_after(membership, plan), shell) == job_entities(processes).to_set()
            &&& related_to(selection_after(selection, plan), shell) == optional_set(input)
            &&& related_to(selection_after(selection, plan), shell).subset_of(
                related_to(members_after(membership, plan), shell),
            )
            &&& terminal_peer(selection_after(selection, plan), shell) == match input {
                Some(p) => p,
                None => shell,
            }
        }),
{
    let plan = foreground_job(shell, Some(group), previous_input, processes, input)->Ok_0;
    let members = members_after(membership, plan);
    let selected = selection_after(selection, plan);
    assert forall|p: Entity| related_to(membership, shell).contains(p) implies group.contains(p) by {
        assert(group.to_set().contains(p));
    }
    assert(related_to(members, shell) =~= job_entities(processes).to_set());
    assert forall|p: Entity| related_to(selection, shell).contains(p) implies previous_input == Some(p) by {
        assert(optional_set(previous_input).contains(p));
    }
    assert(plan.clear_input == previous_input && plan.input == input && plan.shell == shell);
    assert forall|p: Entity| related_to(selected, shell).contains(p) implies optional_set(input).contains(p) by {
        if input != Some(p) {
            assert(selection.contains_key(p) && selection[p] == shell);
            assert(related_to(selection, shell).contains(p));
        }
    }
    assert(related_to(selected, shell) =~= optional_set(input));
    if let Some(p) = input {
        assert(related_to(selected, shell).contains(p));
    }
}

/// A foreground transition keeps every selected input owner inside the
/// group it is selected for, provided it does not move into this shell's
/// group a process that is selected as another shell's input owner.
pub proof fn foreground_job_keeps_selections_in_groups(
    membership: Map<Entity, Entity>,
    selection: Map<Entity, Entity>,
    shell: Entity,
    group: Seq<Entity>,
    previous_input: Option<Entity>,
    processes: Seq<(Entity, bool)>,
    input: Option<Entity>,
)
    requires
        foreground_job(shell, Some(group), previous_input, processes, input) is Ok,
        related_to(membership, shell) == group.to_set(),
        related_to(selection, shell) == optional_set(previous_input),
        selections_in_groups(membership, selection),
        forall|p: Entity| #[trigger] job_entities(processes).contains(p) && selection.contains_key(p) ==> selection[p]
            == shell,
    ensures
        ({
            let plan = foreground_job(shell, Some(group), previous_input, processes, input)->Ok_0;
            selections_in_groups(members_after(membership, plan), selection_after(selection, plan))
        }),
{
    let plan = foreground_job(shell, Some(group), previous_input, processes, input)->Ok_0;
    let members = members_after(membership, plan);
    let selected = selection_after(selection, plan);
    assert forall|p: Entity| #[trigger] selected.contains_key(p) implies members.contains_key(p) && members[p]
        == selected[p] by {
        if input != Some(p) {
            assert(selection.contains_key(p) && previous_input != Some(p));
            if selection[p] == shell {
                assert(related_to(selection, shell).contains(p));
                assert(optional_set(previous_input).contains(p));
            }
            if job_entities(processes).contains(p) {
                assert(selection[p] == shell);
            }
            if group.contains(p) {
                assert(group.to_set().contains(p));
                assert(related_to(membership, shell).contains(p));
            }
        }
    }
}

/// Repeating a foreground transition changes nothing more: once a plan
/// has been applied, the plan that the same request gives in the new state
/// leaves membership and input selection as they are.
pub proof fn foreground_job_is_idempotent(
    membership: Map<Entity, Entity>,
    selection: Map<Entity, Entity>,
    shell: Entity,
    group: Seq<Entity>,
    previous_input: Option<Entity>,
    processes: Seq<(Entity, bool)>,
    input: Option<Entity>,
)
    requires
        foreground_job(shell, Some(group), previous_input, processes, input) is Ok,
    ensures
        ({
            let first = foreground_job(shell, Some(group), previous_input, processes, input)->Ok_0;
            let again = foreground_job(shell, Some(job_entities(processes)), input, processes, input);
            &&& again is Ok
            &&& members_after(members_after(membership, first), again->Ok_0) == members_after(membership, first)
            &&& selection_after(selection_after(selection, first), again->Ok_0) == selection_after(selection, first)
            &&& terminal_peer(selection_after(selection_after(selection, first), again->Ok_0), shell)
                == terminal_peer(selection_after(selection, first), shell)
        }),
{
    let first = foreground_job(shell, Some(group), previous_input, processes, input)->Ok_0;
    let again = foreground_job(shell, Some(job_entities(processes)), input, processes, input);
    assert(again is Ok);
    let second = again->Ok_0;
    assert(members_after(members_after(membership, first), second) =~= members_after(membership, first));
    assert(selection_after(selection_after(selection, first), second) =~= selection_after(selection, first));
}

/// A foreground transition leaves every other shell alone, except that the
/// processes it moves into this shell's group, and its new input owner,
/// leave the other shell.
pub proof fn foreground_job_leaves_other_shells(
    membership: Map<Entity, Entity>,
    selection: Map<Entity, Entity>,
    shell: Entity,
    other: Entity,
    group: Seq<Entity>,
    previous_input: Option<Entity>,
    processes: Seq<(Entity, bool)>,
    input: Option<Entity>,
)
    requires
        other != shell,
        foreground_job(shell, Some(group), previous_input, processes, input) is Ok,
        related_to(membership, shell) == group.to_set(),
        related_to(selection, shell) == optional_set(previous_input),
    ensures
        ({
            let plan = foreground_job(shell, Some(group), previous_input, processes, input)->Ok_0;
            &&& related_to(members_after(membership, plan), other) == related_to(membership, other).difference(
                job_entities(processes).to_set(),
            )
            &&& related_to(selection_after(selection, plan), other) == related_to(selection, other).difference(
                optional_set(input),
            )
        }),
{
    let plan = foreground_job(shell, Some(group), previous_input, processes, input)->Ok_0;
    assert forall|p: Entity| group.contains(p) implies membership.contains_key(p) && membership[p] == shell by {
        assert(group.to_set().contains(p));
        assert(related_to(membership, shell).contains(p));
    }
    assert(related_to(members_after(membership, plan), other) =~= related_to(membership, other).difference(
        job_entities(processes).to_set(),
    ));
    assert forall|p: Entity| previous_input == Some(p) implies selection.contains_key(p) && selection[p] == shell by {
        assert(optional_set(previous_input).contains(p));
        assert(related_to(selection, shell).contains(p));
    }
    assert(related_to(selection_after(selection, plan), other) =~= related_to(selection, other).difference(
        optional_set(input),
    ));
}

} // verus!
