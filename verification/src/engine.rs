//! The reconciliation engine: what to do after each snapshot.
//!
//! The engine remembers the target set of the last snapshot. When a snapshot
//! has an empty target set, the managed executable is to be launched. When
//! it has not, the managed executable is to be terminated once for each
//! process with an observed name that was not in the remembered set.

use crate::config::{Config, ConfigView};
use crate::names::{clone_names, is_observed_process, texts};
use crate::process::{
    get_target_process_pids, is_observed, is_target, lemma_observed_pids_are_targets,
    lemma_pids_where_empty, lemma_pids_where_finite, lemma_pids_where_push, observed_pids,
    pids_where, processes, target_pids, ProcessEntry, ProcessView,
};
use std::collections::HashSet;
use vstd::prelude::*;

verus! {

broadcast use vstd::std_specs::hash::group_hash_axioms;

/// What the engine asks its caller to do.
#[derive(Debug, Clone, PartialEq, Eq)]
pub enum Action {
    /// Start the managed executable with this command and these arguments.
    Launch { command: String, arguments: Vec<String> },
    /// End the managed executable's process, if one is running.
    TerminateManaged,
}

/// Model of an `Action`.
pub enum ActionView {
    Launch { command: Seq<char>, arguments: Seq<Seq<char>> },
    TerminateManaged,
}

impl View for Action {
    type V = ActionView;

    open spec fn view(&self) -> ActionView {
        match *self {
            Action::Launch { command, arguments } => ActionView::Launch {
                command: command@,
                arguments: texts(arguments@),
            },
            Action::TerminateManaged => ActionView::TerminateManaged,
        }
    }
}

/// The models of a list of actions, in order.
pub open spec fn plan(actions: Seq<Action>) -> Seq<ActionView> {
    Seq::new(actions.len(), |i: int| actions[i]@)
}

/// The launch of the managed executable as the configuration describes it.
pub open spec fn launch(config: ConfigView) -> ActionView {
    ActionView::Launch {
        command: config.execution.command,
        arguments: config.execution.arguments,
    }
}

/// `count` times the request to terminate the managed executable.
pub open spec fn terminations(count: nat) -> Seq<ActionView> {
    Seq::new(count, |i: int| ActionView::TerminateManaged)
}

/// The identifiers of `target` that were not known before.
pub open spec fn new_pids(known: Set<u32>, target: Set<u32>) -> Set<u32> {
    target.difference(known)
}

/// The new identifiers that belong to a process with an observed name.
pub open spec fn offending_pids(
    fresh: Set<u32>,
    snapshot: Seq<ProcessView>,
    config: ConfigView,
) -> Set<u32> {
    fresh.intersect(observed_pids(snapshot, config))
}

/// The actions that follow from the first snapshot: a launch when its target
/// set is empty, nothing otherwise.
pub open spec fn bootstrap_actions(snapshot: Seq<ProcessView>, config: ConfigView) -> Seq<
    ActionView,
> {
    if target_pids(snapshot, config).is_empty() {
        seq![launch(config)]
    } else {
        Seq::empty()
    }
}

/// The actions that follow from a snapshot when `known` is the target set of
/// the snapshot before it: a launch when the target set is empty, otherwise
/// one termination for each new process with an observed name.
pub open spec fn tick_actions(
    known: Set<u32>,
    snapshot: Seq<ProcessView>,
    config: ConfigView,
) -> Seq<ActionView> {
    let target = target_pids(snapshot, config);
    if target.is_empty() {
        seq![launch(config)]
    } else {
        terminations(offending_pids(new_pids(known, target), snapshot, config).len())
    }
}

/// What to do when no target process runs: launch the managed executable.
pub fn handle_no_processes(config: &Config) -> (action: Action)
    ensures
        action@ == launch(config@),
{
    Action::Launch {
        command: config.execution.command.clone(),
        arguments: clone_names(config.execution.arguments.as_slice()),
    }
}

/// The identifiers of `current` that `known` does not hold.
pub fn new_process_pids(current: &HashSet<u32>, known: &HashSet<u32>) -> (fresh: HashSet<u32>)
    ensures
        fresh@ == new_pids(known@, current@),
{
    let mut fresh: HashSet<u32> = HashSet::new();
    for pid in walk: current.iter()
        invariant
            walk.seq().unref().to_set() == current@,
            fresh@ == walk.seq().unref().take(walk.index() as int).to_set().difference(known@),
            walk.index() == walk.seq().len() ==> fresh@ == current@.difference(known@),
    {
        proof {
            let seen = walk.seq().unref().take(walk.index() as int);
            seen.lemma_push_to_set_commute(*pid);
            assert(walk.seq().unref().take(walk.seq().len() as int) =~= walk.seq().unref());
        }
        if !known.contains(pid) {
            fresh.insert(*pid);
        }
    }
    fresh
}

/// What to do about the processes that are new: one request to terminate the
/// managed executable for each identifier of `new_pids` that belongs, in the
/// snapshot, to a process with an observed name.
pub fn handle_new_processes(
    snapshot: &[ProcessEntry],
    config: &Config,
    new_pids: &HashSet<u32>,
) -> (actions: Vec<Action>)
    ensures
        plan(actions@) == terminations(
            offending_pids(new_pids@, processes(snapshot@), config@).len(),
        ),
{
    let ghost wanted = |name: Seq<char>| is_observed(name, config@);
    let mut actions: Vec<Action> = Vec::new();
    let mut handled: HashSet<u32> = HashSet::new();
    let mut i: usize = 0;
    proof {
        lemma_pids_where_empty(wanted);
        assert(processes(snapshot@).take(0) =~= Seq::empty());
        assert(plan(actions@) =~= terminations(0));
    }
    while i < snapshot.len()
        invariant
            i <= snapshot.len(),
            wanted == (|name: Seq<char>| is_observed(name, config@)),
            handled@ == new_pids@.intersect(
                pids_where(processes(snapshot@).take(i as int), wanted),
            ),
            handled@.finite(),
            actions.len() == handled@.len(),
            actions.len() <= i,
            plan(actions@) == terminations(actions.len() as nat),
        decreases snapshot.len() - i,
    {
        let ghost seen = processes(snapshot@).take(i as int);
        proof {
            lemma_pids_where_push(seen, snapshot@[i as int]@, wanted);
            assert(seen.push(snapshot@[i as int]@) =~= processes(snapshot@).take(i + 1));
        }
        if new_pids.contains(&snapshot[i].pid) && is_observed_process(
            snapshot[i].name.as_str(),
            config.processes.observe_names.as_slice(),
        ) {
            if handled.insert(snapshot[i].pid) {
                let ghost planned = plan(actions@);
                actions.push(Action::TerminateManaged);
                assert(plan(actions@) =~= planned.push(ActionView::TerminateManaged));
            }
        }
        i += 1;
    }
    assert(processes(snapshot@).take(snapshot.len() as int) =~= processes(snapshot@));
    actions
}

/// The state of the reconciliation between two snapshots: the target set of
/// the last snapshot.
#[derive(Debug)]
pub struct Engine {
    known: HashSet<u32>,
}

impl View for Engine {
    type V = Set<u32>;

    /// The identifiers that the engine knows.
    closed spec fn view(&self) -> Set<u32> {
        self.known@
    }
}

impl Engine {
    /// Starts the engine on the first snapshot. The snapshot's target set
    /// becomes what the engine knows, so that the first tick reports only
    /// what started after it. When that set is empty, the managed executable
    /// is to be launched at once.
    pub fn bootstrap(snapshot: &[ProcessEntry], config: &Config) -> (started: (Engine, Vec<Action>))
        ensures
            started.0@ == target_pids(processes(snapshot@), config@),
            plan(started.1@) == bootstrap_actions(processes(snapshot@), config@),
    {
        let known = get_target_process_pids(snapshot, config);
        let mut actions: Vec<Action> = Vec::new();
        if known.is_empty() {
            actions.push(handle_no_processes(config));
        }
        (Engine { known }, actions)
    }

    /// One poll. Returns what is to be done about the snapshot, given what
    /// the engine knew, and remembers the snapshot's target set.
    pub fn tick(&mut self, snapshot: &[ProcessEntry], config: &Config) -> (actions: Vec<Action>)
        ensures
            final(self)@ == target_pids(processes(snapshot@), config@),
            plan(actions@) == tick_actions(old(self)@, processes(snapshot@), config@),
    {
        let target = get_target_process_pids(snapshot, config);
        let actions = if target.is_empty() {
            let mut actions: Vec<Action> = Vec::new();
            actions.push(handle_no_processes(config));
            actions
        } else {
            let fresh = new_process_pids(&target, &self.known);
            handle_new_processes(snapshot, config, &fresh)
        };
        self.known = target;
        actions
    }

    /// Whether the engine knows this identifier.
    pub fn is_known(&self, pid: u32) -> (known: bool)
        ensures
            known == self@.contains(pid),
    {
        self.known.contains(&pid)
    }

    /// How many identifiers the engine knows.
    pub fn known_count(&self) -> (count: usize)
        ensures
            count == self@.len(),
    {
        self.known.len()
    }
}

/// A snapshot in which no process has an observed name or the managed
/// executable's name asks for exactly one launch and for no termination,
/// at the start and at every tick, whatever the engine knew.
pub proof fn lemma_no_target_means_one_launch(
    known: Set<u32>,
    snapshot: Seq<ProcessView>,
    config: ConfigView,
)
    requires
        forall|i: int| 0 <= i < snapshot.len() ==> !is_target(#[trigger] snapshot[i].name, config),
    ensures
        tick_actions(known, snapshot, config) == seq![launch(config)],
        bootstrap_actions(snapshot, config) == seq![launch(config)],
{
    assert(target_pids(snapshot, config) =~= Set::empty());
}

/// When the processes with an observed name all have one identifier, and the
/// engine did not know it, the tick asks for exactly one termination. This
/// holds in particular of an engine that knew nothing.
pub proof fn lemma_one_new_observed_process_means_one_termination(
    known: Set<u32>,
    snapshot: Seq<ProcessView>,
    config: ConfigView,
    k: int,
)
    requires
        0 <= k < snapshot.len(),
        is_observed(snapshot[k].name, config),
        !known.contains(snapshot[k].pid),
        forall|i: int|
            0 <= i < snapshot.len() && is_observed(#[trigger] snapshot[i].name, config)
                ==> snapshot[i].pid == snapshot[k].pid,
    ensures
        tick_actions(known, snapshot, config) == seq![ActionView::TerminateManaged],
{
    let target = target_pids(snapshot, config);
    lemma_observed_pids_are_targets(snapshot, config);
    assert(observed_pids(snapshot, config).contains(snapshot[k].pid));
    assert(offending_pids(new_pids(known, target), snapshot, config) =~= set![snapshot[k].pid]);
    assert(terminations(1) =~= seq![ActionView::TerminateManaged]);
}

/// A tick leaves the engine with the target set of its snapshot. A second
/// tick on the same snapshot then asks for nothing, provided that the target
/// set is not empty; an empty one asks for a launch each time.
pub proof fn lemma_same_snapshot_again_is_quiet(snapshot: Seq<ProcessView>, config: ConfigView)
    requires
        !target_pids(snapshot, config).is_empty(),
    ensures
        tick_actions(target_pids(snapshot, config), snapshot, config) == Seq::<ActionView>::empty(),
{
    let target = target_pids(snapshot, config);
    assert(offending_pids(new_pids(target, target), snapshot, config) =~= Set::empty());
    assert(terminations(0) =~= Seq::<ActionView>::empty());
}

/// Between two snapshots the new identifiers are exactly those of the second
/// target set that the first target set does not hold: none that is in both,
/// and every one that is only in the second.
pub proof fn lemma_new_pids_are_the_arrivals(
    first: Seq<ProcessView>,
    second: Seq<ProcessView>,
    config: ConfigView,
)
    ensures
        forall|pid: u32|
            #[trigger] new_pids(target_pids(first, config), target_pids(second, config)).contains(
                pid,
            ) <==> target_pids(second, config).contains(pid) && !target_pids(
                first,
                config,
            ).contains(pid),
{
}

/// The number of terminations that a tick asks for is the number of new
/// identifiers with an observed name, and never more than the snapshot has
/// processes.
pub proof fn lemma_terminations_are_bounded(
    known: Set<u32>,
    snapshot: Seq<ProcessView>,
    config: ConfigView,
)
    requires
        !target_pids(snapshot, config).is_empty(),
    ensures
        tick_actions(known, snapshot, config).len() == offending_pids(
            new_pids(known, target_pids(snapshot, config)),
            snapshot,
            config,
        ).len(),
        tick_actions(known, snapshot, config).len() <= snapshot.len(),
        forall|i: int|
            0 <= i < tick_actions(known, snapshot, config).len() ==> tick_actions(
                known,
                snapshot,
                config,
            )[i] == ActionView::TerminateManaged,
{
    let observed = observed_pids(snapshot, config);
    let fresh = new_pids(known, target_pids(snapshot, config));
    lemma_pids_where_finite(snapshot, |name: Seq<char>| is_observed(name, config));
    vstd::set_lib::lemma_len_subset(fresh.intersect(observed), observed);
}

} // verus!
