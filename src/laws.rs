//! Properties of the add step and of runs of it, proved over the states that
//! the contracts of `AddTask::sync_run` and `run_add_tasks` describe.

use vstd::prelude::*;

use crate::add::AddTask;
use crate::module::{Module, ModuleIdentifier};
use crate::module_graph::connection_of;
use crate::task::MakeState;
use crate::task_loop::{run_fails, run_follow_ups, run_state};

verus! {

/// Every task of `tasks` is a well-formed discovery of the regular module `x`.
pub open spec fn discovers(tasks: Seq<AddTask>, x: ModuleIdentifier) -> bool {
    forall|i: int|
        0 <= i < tasks.len() ==> {
            &&& #[trigger] tasks[i].well_formed()
            &&& !tasks[i].module.is_self_module()
            &&& tasks[i].module.identifier() == x
        }
}

proof fn lemma_discovers_drop_last(tasks: Seq<AddTask>, x: ModuleIdentifier)
    requires
        tasks.len() > 0,
        discovers(tasks, x),
    ensures
        discovers(tasks.drop_last(), x),
        tasks.last().well_formed(),
        !tasks.last().module.is_self_module(),
        tasks.last().module.identifier() == x,
{
    assert(tasks.last() == tasks[tasks.len() - 1]);
    assert forall|i: int| 0 <= i < tasks.drop_last().len() implies {
        &&& #[trigger] tasks.drop_last()[i].well_formed()
        &&& !tasks.drop_last()[i].module.is_self_module()
        &&& tasks.drop_last()[i].module.identifier() == x
    } by {
        assert(tasks.drop_last()[i] == tasks[i]);
    }
}

/// However many discoveries of a module not yet in the graph arrive, and
/// however many dependencies each carries, none fails, exactly one node is
/// added (the first discovery's), exactly one build follow-up is produced,
/// and every one of those dependencies is linked to the module.
pub proof fn lemma_new_module_added_once(
    s: MakeState,
    tasks: Seq<AddTask>,
    is_new_treeshaking: bool,
    x: ModuleIdentifier,
)
    requires
        tasks.len() >= 1,
        discovers(tasks, x),
        !s.graph.modules.contains_key(x),
    ensures
        !run_fails(s, tasks, is_new_treeshaking),
        run_state(s, tasks, is_new_treeshaking).graph.modules == s.graph.modules.insert(
            x,
            tasks[0].module_graph_module,
        ),
        run_follow_ups(s, tasks, is_new_treeshaking) == seq![tasks[0].module],
        forall|i: int, j: int|
            0 <= i < tasks.len() && 0 <= j < tasks[i].dependencies@.len() ==> {
                let d = #[trigger] tasks[i].dependencies@[j];
                &&& run_state(s, tasks, is_new_treeshaking).graph.connections.contains_key(d)
                &&& run_state(s, tasks, is_new_treeshaking).graph.connections[d].module_identifier
                    == x
            },
    decreases tasks.len(),
{
    lemma_discovers_drop_last(tasks, x);
    let rest = tasks.drop_last();
    let last = tasks.last();
    let before = run_state(s, rest, is_new_treeshaking);
    let after = run_state(s, tasks, is_new_treeshaking);
    if tasks.len() == 1 {
        assert(last == tasks[0]);
        assert(rest.len() == 0);
        assert(before == s);
        assert(!run_fails(s, rest, is_new_treeshaking));
        assert(run_follow_ups(s, rest, is_new_treeshaking) == Seq::<Module>::empty());
        assert(run_follow_ups(s, tasks, is_new_treeshaking) =~= seq![tasks[0].module]);
        assert forall|i: int, j: int|
            0 <= i < tasks.len() && 0 <= j < tasks[i].dependencies@.len() implies {
                let d = #[trigger] tasks[i].dependencies@[j];
                &&& after.graph.connections.contains_key(d)
                &&& after.graph.connections[d].module_identifier == x
            } by {
            let d = tasks[i].dependencies@[j];
            assert(last.dependencies@.to_set().contains(d));
        }
    } else {
        lemma_new_module_added_once(s, rest, is_new_treeshaking, x);
        assert(rest[0] == tasks[0]);
        assert(before.graph.modules.contains_key(x));
        assert forall|i: int, j: int|
            0 <= i < tasks.len() && 0 <= j < tasks[i].dependencies@.len() implies {
                let d = #[trigger] tasks[i].dependencies@[j];
                &&& after.graph.connections.contains_key(d)
                &&& after.graph.connections[d].module_identifier == x
            } by {
            let d = tasks[i].dependencies@[j];
            if i < tasks.len() - 1 {
                assert(rest[i] == tasks[i]);
                assert(rest[i].dependencies@[j] == d);
            } else {
                assert(last.dependencies@.to_set().contains(d));
            }
        }
    }
}

/// A self module never becomes a node and never produces a follow-up; when
/// its issuer has a node, each of its dependencies is linked to the issuer.
pub proof fn lemma_self_module_resolves_to_issuer(
    s: MakeState,
    task: AddTask,
    is_new_treeshaking: bool,
)
    requires
        task.well_formed(),
        task.module.is_self_module(),
    ensures
        !task.is_new_in(s),
        task.next_state(s, is_new_treeshaking).graph.modules == s.graph.modules,
        task.next_state(s, is_new_treeshaking).entries == s.entries,
        s.graph.modules.contains_key(task.module_graph_module.issuer.unwrap()) ==> !task.fails_in(
            s,
        ),
        forall|j: int|
            0 <= j < task.dependencies@.len() ==> task.next_state(
                s,
                is_new_treeshaking,
            ).graph.connections[#[trigger] task.dependencies@[j]] == connection_of(
                task.original_module_identifier,
                task.module_graph_module.issuer.unwrap(),
                is_new_treeshaking,
            ),
{
    assert forall|j: int| 0 <= j < task.dependencies@.len() implies task.next_state(
        s,
        is_new_treeshaking,
    ).graph.connections[#[trigger] task.dependencies@[j]] == connection_of(
        task.original_module_identifier,
        task.module_graph_module.issuer.unwrap(),
        is_new_treeshaking,
    ) by {
        assert(task.dependencies@.to_set().contains(task.dependencies@[j]));
    }
}

/// An add step with dependencies to link fails exactly when its target has
/// no node at the moment of linking, and a failing step produces no
/// follow-up. A regular module is inserted before linking, so it never
/// fails.
pub proof fn lemma_unresolved_target_fails(s: MakeState, task: AddTask, is_new_treeshaking: bool)
    requires
        task.well_formed(),
        task.dependencies@.len() > 0,
    ensures
        task.fails_in(s) <==> !task.next_state(s, is_new_treeshaking).graph.modules.contains_key(
            task.target(),
        ),
        task.fails_in(s) ==> !task.is_new_in(s),
        !task.module.is_self_module() ==> !task.fails_in(s),
{
}

/// `task` asks for the module `m` to be entered: it is an entry request for
/// `m`, and not a self module.
pub open spec fn requests_entry(task: AddTask, m: ModuleIdentifier) -> bool {
    &&& !task.module.is_self_module()
    &&& task.is_entry
    &&& task.module.identifier() == m
}

/// The modules that some task of `tasks` asks to be entered.
pub open spec fn entry_requests(tasks: Seq<AddTask>) -> Set<ModuleIdentifier> {
    Set::new(
        |m: ModuleIdentifier| exists|i: int| 0 <= i < tasks.len() && #[trigger] requests_entry(tasks[i], m),
    )
}

/// Adding tasks in turn enters exactly the modules that some of them ask to
/// enter, beside the entries that were there: the entry set only grows, and
/// which modules it gains does not depend on the order of the tasks.
pub proof fn lemma_entries_are_entry_requests(
    s: MakeState,
    tasks: Seq<AddTask>,
    is_new_treeshaking: bool,
)
    ensures
        run_state(s, tasks, is_new_treeshaking).entries == s.entries.union(entry_requests(tasks)),
        s.entries.subset_of(run_state(s, tasks, is_new_treeshaking).entries),
    decreases tasks.len(),
{
    if tasks.len() == 0 {
        assert(entry_requests(tasks) =~= Set::<ModuleIdentifier>::empty());
        assert(s.entries.union(entry_requests(tasks)) =~= s.entries);
    } else {
        let rest = tasks.drop_last();
        let last = tasks.last();
        lemma_entries_are_entry_requests(s, rest, is_new_treeshaking);
        let before = run_state(s, rest, is_new_treeshaking);
        let after = run_state(s, tasks, is_new_treeshaking);
        assert(after == last.next_state(before, is_new_treeshaking));
        assert forall|m: ModuleIdentifier|
            #[trigger] after.entries.contains(m) <==> s.entries.union(entry_requests(tasks)).contains(
                m,
            ) by {
            if entry_requests(tasks).contains(m) {
                let i = choose|i: int| 0 <= i < tasks.len() && #[trigger] requests_entry(tasks[i], m);
                if i < tasks.len() - 1 {
                    assert(rest[i] == tasks[i]);
                    assert(entry_requests(rest).contains(m));
                }
            }
            if entry_requests(rest).contains(m) {
                let i = choose|i: int| 0 <= i < rest.len() && #[trigger] requests_entry(rest[i], m);
                assert(rest[i] == tasks[i]);
                assert(entry_requests(tasks).contains(m));
            }
            if requests_entry(last, m) {
                assert(requests_entry(tasks[tasks.len() - 1], m));
                assert(entry_requests(tasks).contains(m));
            }
        }
        assert(run_state(s, tasks, is_new_treeshaking).entries =~= s.entries.union(
            entry_requests(tasks),
        ));
    }
}

/// Two runs over the same discoveries, in whatever orders, end with the same
/// entry set.
pub proof fn lemma_entries_independent_of_order(
    s: MakeState,
    tasks: Seq<AddTask>,
    reordered: Seq<AddTask>,
    is_new_treeshaking: bool,
)
    requires
        tasks.to_set() == reordered.to_set(),
    ensures
        run_state(s, tasks, is_new_treeshaking).entries == run_state(
            s,
            reordered,
            is_new_treeshaking,
        ).entries,
{
    lemma_entries_are_entry_requests(s, tasks, is_new_treeshaking);
    lemma_entries_are_entry_requests(s, reordered, is_new_treeshaking);
    assert forall|m: ModuleIdentifier|
        entry_requests(tasks).contains(m) implies entry_requests(reordered).contains(m) by {
        let i = choose|i: int| 0 <= i < tasks.len() && #[trigger] requests_entry(tasks[i], m);
        assert(tasks.to_set().contains(tasks[i]));
        let j = choose|j: int| 0 <= j < reordered.len() && reordered[j] == tasks[i];
        assert(requests_entry(reordered[j], m));
    }
    assert forall|m: ModuleIdentifier|
        entry_requests(reordered).contains(m) implies entry_requests(tasks).contains(m) by {
        let j = choose|j: int| 0 <= j < reordered.len() && #[trigger] requests_entry(reordered[j], m);
        assert(reordered.to_set().contains(reordered[j]));
        let i = choose|i: int| 0 <= i < tasks.len() && tasks[i] == reordered[j];
        assert(requests_entry(tasks[i], m));
    }
    assert(entry_requests(tasks) =~= entry_requests(reordered));
}

/// Asking for the same module as an entry any number of times, one or more,
/// leaves it in the entry set once, beside the entries that were there.
pub proof fn lemma_repeated_entry_once(
    s: MakeState,
    tasks: Seq<AddTask>,
    is_new_treeshaking: bool,
    x: ModuleIdentifier,
)
    requires
        tasks.len() >= 1,
        discovers(tasks, x),
        forall|i: int| 0 <= i < tasks.len() ==> #[trigger] tasks[i].is_entry,
    ensures
        run_state(s, tasks, is_new_treeshaking).entries == s.entries.insert(x),
        run_state(s, tasks, is_new_treeshaking).entries.contains(x),
{
    lemma_entries_are_entry_requests(s, tasks, is_new_treeshaking);
    assert(tasks[0].well_formed());
    assert(requests_entry(tasks[0], x));
    assert forall|m: ModuleIdentifier| entry_requests(tasks).contains(m) implies m == x by {
        let i = choose|i: int| 0 <= i < tasks.len() && #[trigger] requests_entry(tasks[i], m);
        assert(tasks[i].well_formed());
    }
    assert(entry_requests(tasks) =~= set![x]);
    assert(s.entries.union(set![x]) =~= s.entries.insert(x));
}

/// After discoveries of a module, it is an entry exactly when it already was
/// one or some discovery asked for it, in whatever order they came; no other
/// module is entered.
pub proof fn lemma_entry_membership_is_disjunction(
    s: MakeState,
    tasks: Seq<AddTask>,
    is_new_treeshaking: bool,
    x: ModuleIdentifier,
)
    requires
        discovers(tasks, x),
    ensures
        run_state(s, tasks, is_new_treeshaking).entries.contains(x) <==> (s.entries.contains(x)
            || exists|i: int| 0 <= i < tasks.len() && #[trigger] tasks[i].is_entry),
        forall|m: ModuleIdentifier|
            m != x ==> (#[trigger] run_state(s, tasks, is_new_treeshaking).entries.contains(m)
                <==> s.entries.contains(m)),
{
    lemma_entries_are_entry_requests(s, tasks, is_new_treeshaking);
    if exists|i: int| 0 <= i < tasks.len() && #[trigger] tasks[i].is_entry {
        let i = choose|i: int| 0 <= i < tasks.len() && #[trigger] tasks[i].is_entry;
        assert(tasks[i].well_formed());
        assert(requests_entry(tasks[i], x));
    }
    if entry_requests(tasks).contains(x) {
        let i = choose|i: int| 0 <= i < tasks.len() && #[trigger] requests_entry(tasks[i], x);
        assert(tasks[i].is_entry);
    }
    assert forall|m: ModuleIdentifier| m != x implies !entry_requests(tasks).contains(m) by {
        if entry_requests(tasks).contains(m) {
            let i = choose|i: int| 0 <= i < tasks.len() && #[trigger] requests_entry(tasks[i], m);
            assert(tasks[i].well_formed());
        }
    }
}

} // verus!
