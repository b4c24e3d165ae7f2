//! The synchronous side of the task loop: discovered modules are added one
//! after another, in arrival order, and the build follow-ups are collected
//! for the build phase.

use std::collections::VecDeque;
use vstd::prelude::*;

use crate::add::AddTask;
use crate::module::Module;
use crate::module_graph::ModuleGraphError;
use crate::task::{BuildTask, MakeState, MakeTaskContext};

verus! {

broadcast use vstd::std_specs::vecdeque::group_vec_dequeue_axioms;

/// The state after adding each task of `tasks` in turn, starting from `s`.
pub open spec fn run_state(s: MakeState, tasks: Seq<AddTask>, is_new_treeshaking: bool) -> MakeState
    decreases tasks.len(),
{
    if tasks.len() == 0 {
        s
    } else {
        tasks.last().next_state(run_state(s, tasks.drop_last(), is_new_treeshaking), is_new_treeshaking)
    }
}

/// Some task of `tasks` fails when they are added in turn from `s`.
pub open spec fn run_fails(s: MakeState, tasks: Seq<AddTask>, is_new_treeshaking: bool) -> bool
    decreases tasks.len(),
{
    tasks.len() > 0 && (run_fails(s, tasks.drop_last(), is_new_treeshaking) || tasks.last().fails_in(
        run_state(s, tasks.drop_last(), is_new_treeshaking),
    ))
}

/// The modules handed on to the build phase, in order, when `tasks` are added
/// in turn from `s`.
pub open spec fn run_follow_ups(s: MakeState, tasks: Seq<AddTask>, is_new_treeshaking: bool) -> Seq<
    Module,
>
    decreases tasks.len(),
{
    if tasks.len() == 0 {
        Seq::empty()
    } else {
        let before = run_follow_ups(s, tasks.drop_last(), is_new_treeshaking);
        if tasks.last().is_new_in(run_state(s, tasks.drop_last(), is_new_treeshaking)) {
            before.push(tasks.last().module)
        } else {
            before
        }
    }
}

/// The task at index `k` is the first of `tasks` to fail when they are added
/// in turn from `s`.
pub open spec fn fails_first_at(
    s: MakeState,
    tasks: Seq<AddTask>,
    k: int,
    is_new_treeshaking: bool,
) -> bool {
    &&& 0 <= k < tasks.len()
    &&& !run_fails(s, tasks.subrange(0, k), is_new_treeshaking)
    &&& tasks[k].fails_in(run_state(s, tasks.subrange(0, k), is_new_treeshaking))
}

/// Runs the queued add tasks in order, until the queue is empty or one
/// fails, and returns the build follow-ups that they produced.
///
/// On failure the tasks before the failing one keep their effect: nothing is
/// rolled back, and the whole generation is to be abandoned.
pub fn run_add_tasks(context: &mut MakeTaskContext, tasks: VecDeque<AddTask>) -> (r: Result<
    Vec<BuildTask>,
    ModuleGraphError,
>)
    requires
        forall|i: int| 0 <= i < tasks@.len() ==> #[trigger] tasks@[i].well_formed(),
    ensures
        final(context).compiler_options == old(context).compiler_options,
        match r {
            Ok(builds) => {
                let ts = old(context).compiler_options.new_tree_shaking;
                &&& !run_fails(old(context).state(), tasks@, ts)
                &&& final(context).state() == run_state(old(context).state(), tasks@, ts)
                &&& builds@.map_values(|b: BuildTask| b.module) == run_follow_ups(
                    old(context).state(),
                    tasks@,
                    ts,
                )
            },
            Err(e) => {
                let ts = old(context).compiler_options.new_tree_shaking;
                exists|k: int|
                    {
                        &&& #[trigger] fails_first_at(old(context).state(), tasks@, k, ts)
                        &&& final(context).state() == run_state(
                            old(context).state(),
                            tasks@.subrange(0, k),
                            ts,
                        )
                        &&& e == ModuleGraphError::UnresolvedTarget {
                            dependency_id: tasks@[k].dependencies@[0],
                            module_identifier: tasks@[k].target(),
                        }
                    }
            },
        },
{
    let ghost all = tasks@;
    let ghost start = context.state();
    let ghost ts = context.compiler_options.new_tree_shaking;
    let mut queue = tasks;
    let mut builds: Vec<BuildTask> = Vec::new();
    let ghost mut i: int = 0;
    proof {
        assert(all.subrange(0, 0) =~= Seq::<AddTask>::empty());
        assert(all.subrange(0, all.len() as int) =~= all);
    }
    while queue.len() > 0
        invariant
            0 <= i <= all.len(),
            all == tasks@,
            queue@ == all.subrange(i, all.len() as int),
            forall|j: int| 0 <= j < all.len() ==> #[trigger] all[j].well_formed(),
            start == old(context).state(),
            ts == context.compiler_options.new_tree_shaking,
            context.compiler_options == old(context).compiler_options,
            !run_fails(start, all.subrange(0, i), ts),
            context.state() == run_state(start, all.subrange(0, i), ts),
            builds@.map_values(|b: BuildTask| b.module) == run_follow_ups(
                start,
                all.subrange(0, i),
                ts,
            ),
        decreases all.len() - i,
    {
        let task = queue.pop_front().unwrap();
        let ghost before = all.subrange(0, i);
        let ghost s = context.state();
        proof {
            assert(task == all[i]);
            assert(all.subrange(0, i + 1).drop_last() =~= before);
            assert(all.subrange(0, i + 1).last() == task);
        }
        match task.sync_run(context) {
            Ok(follow_ups) => {
                let mut follow_ups = follow_ups;
                let ghost prev = builds@;
                match follow_ups.pop() {
                    Some(b) => {
                        builds.push(b);
                    },
                    None => {},
                }
                proof {
                    assert(builds@.map_values(|b: BuildTask| b.module) =~= run_follow_ups(
                        start,
                        all.subrange(0, i + 1),
                        ts,
                    ));
                }
            },
            Err(e) => {
                proof {
                    assert(fails_first_at(start, all, i, ts));
                }
                return Err(e);
            },
        }
        proof {
            i = i + 1;
        }
    }
    assert(all.subrange(0, i) =~= all);
    Ok(builds)
}

} // verus!
