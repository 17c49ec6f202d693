//! Snapshots of the running processes and what the configuration makes of them.
//!
//! A snapshot is a list of processes, each with its identifier and its name,
//! as the operating system gave them at one moment. The target set of a
//! snapshot holds the identifiers of the processes whose name is an observed
//! name or the managed executable's name.

use crate::config::{Config, ConfigView};
use crate::names::{
    ascii_lowercase, eq_ignore_ascii_case, is_observed_process, listed, same_name,
};
use std::collections::HashSet;
use vstd::prelude::*;

verus! {

broadcast use vstd::std_specs::hash::group_hash_axioms;

/// One running process of a snapshot.
#[derive(Debug, Clone, PartialEq, Eq)]
pub struct ProcessEntry {
    /// Identifier that the operating system gave the process.
    pub pid: u32,
    /// Name of the process.
    pub name: String,
}

/// Model of a `ProcessEntry`.
pub struct ProcessView {
    pub pid: u32,
    pub name: Seq<char>,
}

impl View for ProcessEntry {
    type V = ProcessView;

    open spec fn view(&self) -> ProcessView {
        ProcessView { pid: self.pid, name: self.name@ }
    }
}

/// The model of a snapshot: the models of its processes, in order.
pub open spec fn processes(snapshot: Seq<ProcessEntry>) -> Seq<ProcessView> {
    Seq::new(snapshot.len(), |i: int| snapshot[i]@)
}

/// Whether `name` names the managed executable.
pub open spec fn is_managed(name: Seq<char>, config: ConfigView) -> bool {
    same_name(name, config.processes.executable_name)
}

/// Whether `name` is one of the observed names.
pub open spec fn is_observed(name: Seq<char>, config: ConfigView) -> bool {
    listed(name, config.processes.observe_names)
}

/// Whether `name` is an observed name or the managed executable's name.
pub open spec fn is_target(name: Seq<char>, config: ConfigView) -> bool {
    is_observed(name, config) || is_managed(name, config)
}

/// The identifiers of the processes of `snapshot` whose name `wanted` accepts.
pub open spec fn pids_where(snapshot: Seq<ProcessView>, wanted: spec_fn(Seq<char>) -> bool) -> Set<
    u32,
> {
    Set::new(
        |pid: u32|
            exists|i: int|
                0 <= i < snapshot.len() && (#[trigger] snapshot[i]).pid == pid && wanted(
                    snapshot[i].name,
                ),
    )
}

/// The target set: the identifiers of the processes with an observed name or
/// the managed executable's name.
pub open spec fn target_pids(snapshot: Seq<ProcessView>, config: ConfigView) -> Set<u32> {
    pids_where(snapshot, |name: Seq<char>| is_target(name, config))
}

/// The identifiers of the processes with an observed name.
pub open spec fn observed_pids(snapshot: Seq<ProcessView>, config: ConfigView) -> Set<u32> {
    pids_where(snapshot, |name: Seq<char>| is_observed(name, config))
}

/// The empty snapshot has no identifiers.
pub proof fn lemma_pids_where_empty(wanted: spec_fn(Seq<char>) -> bool)
    ensures
        pids_where(Seq::empty(), wanted) == Set::<u32>::empty(),
{
    assert(pids_where(Seq::empty(), wanted) =~= Set::<u32>::empty());
}

/// How `pids_where` grows with the snapshot: one more process adds its
/// identifier when its name is wanted, and nothing otherwise.
pub proof fn lemma_pids_where_push(
    snapshot: Seq<ProcessView>,
    process: ProcessView,
    wanted: spec_fn(Seq<char>) -> bool,
)
    ensures
        pids_where(snapshot.push(process), wanted) == if wanted(process.name) {
            pids_where(snapshot, wanted).insert(process.pid)
        } else {
            pids_where(snapshot, wanted)
        },
{
    let longer = snapshot.push(process);
    let grown = if wanted(process.name) {
        pids_where(snapshot, wanted).insert(process.pid)
    } else {
        pids_where(snapshot, wanted)
    };
    assert forall|pid: u32| pids_where(longer, wanted).contains(pid) implies grown.contains(
        pid,
    ) by {
        let i = choose|i: int|
            0 <= i < longer.len() && (#[trigger] longer[i]).pid == pid && wanted(longer[i].name);
        assert(i < snapshot.len() ==> snapshot[i] == longer[i]);
    }
    assert forall|pid: u32| grown.contains(pid) implies pids_where(longer, wanted).contains(
        pid,
    ) by {
        if pids_where(snapshot, wanted).contains(pid) {
            let i = choose|i: int|
                0 <= i < snapshot.len() && (#[trigger] snapshot[i]).pid == pid && wanted(
                    snapshot[i].name,
                );
            assert(longer[i].pid == pid && wanted(longer[i].name));
        } else {
            assert(longer[snapshot.len() as int].pid == pid);
        }
    }
    assert(pids_where(longer, wanted) =~= grown);
}

/// A snapshot has finitely many identifiers, at most one for each process.
pub proof fn lemma_pids_where_finite(snapshot: Seq<ProcessView>, wanted: spec_fn(Seq<char>) -> bool)
    ensures
        pids_where(snapshot, wanted).finite(),
        pids_where(snapshot, wanted).len() <= snapshot.len(),
    decreases snapshot.len(),
{
    if snapshot.len() == 0 {
        lemma_pids_where_empty(wanted);
        assert(snapshot =~= Seq::empty());
    } else {
        lemma_pids_where_finite(snapshot.drop_last(), wanted);
        lemma_pids_where_push(snapshot.drop_last(), snapshot.last(), wanted);
        assert(snapshot.drop_last().push(snapshot.last()) =~= snapshot);
    }
}

/// Every observed process is a target process.
pub proof fn lemma_observed_pids_are_targets(snapshot: Seq<ProcessView>, config: ConfigView)
    ensures
        observed_pids(snapshot, config).subset_of(target_pids(snapshot, config)),
{
    assert forall|pid: u32| observed_pids(snapshot, config).contains(pid) implies target_pids(
        snapshot,
        config,
    ).contains(pid) by {
        let i = choose|i: int|
            0 <= i < snapshot.len() && (#[trigger] snapshot[i]).pid == pid && is_observed(
                snapshot[i].name,
                config,
            );
        assert(is_target(snapshot[i].name, config));
    }
}

/// Matching takes no notice of the case of ASCII letters: two names that are
/// the same up to that case are observed, managed and targets alike.
pub proof fn lemma_matching_ignores_ascii_case(a: Seq<char>, b: Seq<char>, config: ConfigView)
    requires
        same_name(a, b),
    ensures
        is_managed(a, config) == is_managed(b, config),
        is_observed(a, config) == is_observed(b, config),
        is_target(a, config) == is_target(b, config),
{
    let list = config.processes.observe_names;
    if is_observed(a, config) {
        let i = choose|i: int| 0 <= i < list.len() && same_name(a, #[trigger] list[i]);
        assert(same_name(b, list[i]));
    }
    if is_observed(b, config) {
        let i = choose|i: int| 0 <= i < list.len() && same_name(b, #[trigger] list[i]);
        assert(same_name(a, list[i]));
    }
}

/// A name and its form in ASCII lower case are the same name.
pub proof fn lemma_ascii_lowercase_is_same_name(name: Seq<char>)
    ensures
        same_name(ascii_lowercase(name), name),
{
    assert(ascii_lowercase(ascii_lowercase(name)) =~= ascii_lowercase(name));
}

/// Whether a process of this name is the managed executable.
pub fn is_executable_process(process_name: &str, config: &Config) -> (managed: bool)
    ensures
        managed == is_managed(process_name@, config@),
{
    eq_ignore_ascii_case(process_name, config.processes.executable_name.as_str())
}

/// Whether a process of this name belongs to the target set: whether its name
/// is an observed name or the managed executable's name, up to ASCII case.
pub fn is_target_process(process_name: &str, config: &Config) -> (target: bool)
    ensures
        target == is_target(process_name@, config@),
{
    is_observed_process(process_name, config.processes.observe_names.as_slice())
        || is_executable_process(process_name, config)
}

/// The target set of a snapshot.
pub fn get_target_process_pids(snapshot: &[ProcessEntry], config: &Config) -> (pids: HashSet<u32>)
    ensures
        pids@ == target_pids(processes(snapshot@), config@),
{
    let ghost wanted = |name: Seq<char>| is_target(name, config@);
    let mut pids: HashSet<u32> = HashSet::new();
    let mut i: usize = 0;
    proof {
        lemma_pids_where_empty(wanted);
        assert(processes(snapshot@).take(0) =~= Seq::empty());
    }
    while i < snapshot.len()
        invariant
            i <= snapshot.len(),
            wanted == (|name: Seq<char>| is_target(name, config@)),
            pids@ == pids_where(processes(snapshot@).take(i as int), wanted),
        decreases snapshot.len() - i,
    {
        proof {
            let seen = processes(snapshot@).take(i as int);
            lemma_pids_where_push(seen, snapshot@[i as int]@, wanted);
            assert(seen.push(snapshot@[i as int]@) =~= processes(snapshot@).take(i + 1));
        }
        if is_target_process(snapshot[i].name.as_str(), config) {
            pids.insert(snapshot[i].pid);
        }
        i += 1;
    }
    assert(processes(snapshot@).take(snapshot.len() as int) =~= processes(snapshot@));
    pids
}

/// The managed executable's process: the identifier of the first process of
/// the snapshot whose name is the managed executable's, if there is one.
pub fn find_executable_process(snapshot: &[ProcessEntry], config: &Config) -> (found: Option<u32>)
    ensures
        found is None <==> forall|i: int|
            0 <= i < snapshot.len() ==> !is_managed(#[trigger] processes(snapshot@)[i].name, config@),
        found matches Some(pid) ==> exists|i: int|
            0 <= i < snapshot.len() && #[trigger] processes(snapshot@)[i].pid == pid && is_managed(
                processes(snapshot@)[i].name,
                config@,
            ) && forall|j: int|
                0 <= j < i ==> !is_managed(#[trigger] processes(snapshot@)[j].name, config@),
{
    let mut i: usize = 0;
    while i < snapshot.len()
        invariant
            i <= snapshot.len(),
            forall|j: int|
                0 <= j < i ==> !is_managed(#[trigger] processes(snapshot@)[j].name, config@),
        decreases snapshot.len() - i,
    {
        if is_executable_process(snapshot[i].name.as_str(), config) {
            assert(processes(snapshot@)[i as int].pid == snapshot[i as int].pid && is_managed(
                processes(snapshot@)[i as int].name,
                config@,
            ));
            return Some(snapshot[i].pid);
        }
        i += 1;
    }
    None
}

} // verus!
