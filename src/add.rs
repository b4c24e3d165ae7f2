//! The add step: one discovered module becomes a linked, deduplicated node of
//! the module graph, and a genuinely new module is handed on to the build
//! phase exactly once.

use vstd::prelude::*;

use crate::module::{DependencyId, Module, ModuleIdentifier, ModuleProfile};
use crate::module_graph::{
    connection_of, resolve_all, ModuleGraph, ModuleGraphConnection, ModuleGraphError,
    ModuleGraphModule, ModuleGraphView,
};
use crate::task::{BuildTask, MakeState, MakeTaskContext, TaskType};

verus! {

broadcast use vstd::std_specs::hash::group_hash_axioms;

/// Resolving the dependencies of one more dependency id extends the edges by
/// that id alone.
proof fn lemma_resolve_all_push(
    connections: Map<DependencyId, ModuleGraphConnection>,
    original_module_identifier: Option<ModuleIdentifier>,
    dependencies: Seq<DependencyId>,
    dependency_id: DependencyId,
    module_identifier: ModuleIdentifier,
    is_new_treeshaking: bool,
)
    ensures
        resolve_all(
            connections,
            original_module_identifier,
            dependencies.push(dependency_id),
            module_identifier,
            is_new_treeshaking,
        ) == resolve_all(
            connections,
            original_module_identifier,
            dependencies,
            module_identifier,
            is_new_treeshaking,
        ).insert(
            dependency_id,
            connection_of(original_module_identifier, module_identifier, is_new_treeshaking),
        ),
{
    let pushed = dependencies.push(dependency_id);
    assert(pushed[dependencies.len() as int] == dependency_id);
    assert forall|d: DependencyId| pushed.contains(d) <==> (dependencies.contains(d) || d
        == dependency_id) by {
        if dependencies.contains(d) {
            let i = choose|i: int| 0 <= i < dependencies.len() && dependencies[i] == d;
            assert(pushed[i] == d);
        }
    }
    assert(pushed.to_set() =~= dependencies.to_set().insert(dependency_id));
    assert(resolve_all(
        connections,
        original_module_identifier,
        pushed,
        module_identifier,
        is_new_treeshaking,
    ) =~= resolve_all(
        connections,
        original_module_identifier,
        dependencies,
        module_identifier,
        is_new_treeshaking,
    ).insert(
        dependency_id,
        connection_of(original_module_identifier, module_identifier, is_new_treeshaking),
    ));
}

/// Resolving no dependency keeps the edges as they are.
proof fn lemma_resolve_all_empty(
    connections: Map<DependencyId, ModuleGraphConnection>,
    original_module_identifier: Option<ModuleIdentifier>,
    module_identifier: ModuleIdentifier,
    is_new_treeshaking: bool,
)
    ensures
        resolve_all(
            connections,
            original_module_identifier,
            Seq::<DependencyId>::empty(),
            module_identifier,
            is_new_treeshaking,
        ) == connections,
{
    assert(Seq::<DependencyId>::empty().to_set() =~= Set::<DependencyId>::empty());
    assert(resolve_all(
        connections,
        original_module_identifier,
        Seq::<DependencyId>::empty(),
        module_identifier,
        is_new_treeshaking,
    ) =~= connections);
}

/// Resolves every dependency of `dependencies` to `module_identifier`.
///
/// All of them share the one target, so either each one is linked to it, or,
/// when the target has no node, the first fails and nothing is changed.
pub fn set_resolved_module(
    module_graph: &mut ModuleGraph,
    original_module_identifier: Option<ModuleIdentifier>,
    dependencies: Vec<DependencyId>,
    module_identifier: ModuleIdentifier,
    is_new_treeshaking: bool,
) -> (r: Result<(), ModuleGraphError>)
    ensures
        final(module_graph)@.modules == old(module_graph)@.modules,
        match r {
            Ok(()) => {
                &&& (dependencies@.len() == 0 || old(module_graph)@.modules.contains_key(
                    module_identifier,
                ))
                &&& final(module_graph)@.connections == resolve_all(
                    old(module_graph)@.connections,
                    original_module_identifier,
                    dependencies@,
                    module_identifier,
                    is_new_treeshaking,
                )
            },
            Err(e) => {
                &&& dependencies@.len() > 0
                &&& !old(module_graph)@.modules.contains_key(module_identifier)
                &&& e == ModuleGraphError::UnresolvedTarget {
                    dependency_id: dependencies@[0],
                    module_identifier,
                }
                &&& final(module_graph)@.connections == old(module_graph)@.connections
            },
        },
{
    let ghost start = module_graph@;
    proof {
        lemma_resolve_all_empty(
            start.connections,
            original_module_identifier,
            module_identifier,
            is_new_treeshaking,
        );
        assert(dependencies@.subrange(0, 0) =~= Seq::<DependencyId>::empty());
    }
    let mut i: usize = 0;
    while i < dependencies.len()
        invariant
            i <= dependencies@.len(),
            start == old(module_graph)@,
            module_graph@.modules == start.modules,
            i == 0 ==> module_graph@.connections == start.connections,
            i > 0 ==> start.modules.contains_key(module_identifier),
            module_graph@.connections == resolve_all(
                start.connections,
                original_module_identifier,
                dependencies@.subrange(0, i as int),
                module_identifier,
                is_new_treeshaking,
            ),
        decreases dependencies@.len() - i,
    {
        let dependency_id = dependencies[i];
        match module_graph.set_resolved_module(
            original_module_identifier,
            dependency_id,
            module_identifier,
            is_new_treeshaking,
        ) {
            Ok(()) => {},
            Err(e) => {
                return Err(e);
            },
        }
        proof {
            lemma_resolve_all_push(
                start.connections,
                original_module_identifier,
                dependencies@.subrange(0, i as int),
                dependency_id,
                module_identifier,
                is_new_treeshaking,
            );
            assert(dependencies@.subrange(0, i as int).push(dependency_id)
                =~= dependencies@.subrange(0, i as int + 1));
        }
        i = i + 1;
    }
    assert(dependencies@.subrange(0, i as int) =~= dependencies@);
    Ok(())
}

/// One discovered module, with the dependencies that requested it.
#[derive(Debug)]
pub struct AddTask {
    pub original_module_identifier: Option<ModuleIdentifier>,
    pub module: Module,
    pub module_graph_module: ModuleGraphModule,
    pub dependencies: Vec<DependencyId>,
    pub is_entry: bool,
    pub current_profile: Option<ModuleProfile>,
}

/// A profile after the add step has marked both ends of the integration
/// phase on it.
pub open spec fn integrated(profile: Option<ModuleProfile>) -> Option<ModuleProfile> {
    match profile {
        Some(p) => Some(ModuleProfile { integration_started: true, integration_ended: true }),
        None => None,
    }
}

impl AddTask {
    /// The node was prepared for this module, and a self module knows its
    /// issuer.
    pub open spec fn well_formed(&self) -> bool {
        &&& self.module_graph_module.module_identifier == self.module.identifier()
        &&& self.module.is_self_module() ==> self.module_graph_module.issuer is Some
    }

    /// The module that the dependencies resolve to: the issuer for a self
    /// module, the module itself otherwise.
    pub open spec fn target(&self) -> ModuleIdentifier {
        if self.module.is_self_module() {
            self.module_graph_module.issuer.unwrap()
        } else {
            self.module.identifier()
        }
    }

    /// The module is new: neither a self module nor already in the graph.
    pub open spec fn is_new_in(&self, s: MakeState) -> bool {
        !self.module.is_self_module() && !s.graph.modules.contains_key(self.module.identifier())
    }

    /// The step fails: a self module whose issuer has no node, with at least
    /// one dependency to resolve.
    pub open spec fn fails_in(&self, s: MakeState) -> bool {
        &&& self.module.is_self_module()
        &&& self.dependencies@.len() > 0
        &&& !s.graph.modules.contains_key(self.target())
    }

    /// The state after the step, where it does not fail: a new module is
    /// inserted, every dependency is linked to the target, and a module that
    /// is not a self module is entered if asked, whether new or not.
    pub open spec fn next_state(&self, s: MakeState, is_new_treeshaking: bool) -> MakeState {
        let modules = if self.is_new_in(s) {
            s.graph.modules.insert(self.module.identifier(), self.module_graph_module)
        } else {
            s.graph.modules
        };
        let connections = resolve_all(
            s.graph.connections,
            self.original_module_identifier,
            self.dependencies@,
            self.target(),
            is_new_treeshaking,
        );
        let entries = if !self.module.is_self_module() && self.is_entry {
            s.entries.insert(self.module.identifier())
        } else {
            s.entries
        };
        MakeState { graph: ModuleGraphView { modules, connections }, entries }
    }

    pub fn get_task_type(&self) -> (r: TaskType)
        ensures
            r == TaskType::Sync,
    {
        TaskType::Sync
    }

    /// Runs the add step against the shared state.
    ///
    /// A self module links its dependencies to its issuer, and nothing else
    /// changes. A module already in the graph links them to the existing node
    /// and is entered if asked. Neither produces a follow-up. A new module is
    /// inserted before any edge is linked to it, entered if asked, and handed
    /// on in exactly one build task. When an edge cannot be linked the step fails with no
    /// follow-up and leaves the state as it was.
    pub fn sync_run(self, context: &mut MakeTaskContext) -> (r: Result<
        Vec<BuildTask>,
        ModuleGraphError,
    >)
        requires
            self.well_formed(),
        ensures
            final(context).compiler_options == old(context).compiler_options,
            match r {
                Ok(tasks) => {
                    &&& !self.fails_in(old(context).state())
                    &&& final(context).state() == self.next_state(
                        old(context).state(),
                        old(context).compiler_options.new_tree_shaking,
                    )
                    &&& tasks@.len() == if self.is_new_in(old(context).state()) {
                        1int
                    } else {
                        0int
                    }
                    &&& tasks@.len() == 1 ==> {
                        &&& tasks@[0].module == self.module
                        &&& tasks@[0].current_profile == integrated(self.current_profile)
                        &&& tasks@[0].compiler_options == old(context).compiler_options
                    }
                },
                Err(e) => {
                    &&& self.fails_in(old(context).state())
                    &&& final(context).state() == old(context).state()
                    &&& e == ModuleGraphError::UnresolvedTarget {
                        dependency_id: self.dependencies@[0],
                        module_identifier: self.target(),
                    }
                },
            },
    {
        let ghost pre = context.state();
        let AddTask {
            original_module_identifier,
            module,
            module_graph_module,
            dependencies,
            is_entry,
            current_profile,
        } = self;
        let mut current_profile = current_profile;
        if let Some(profile) = current_profile {
            let mut profile = profile;
            profile.mark_integration_start();
            current_profile = Some(profile);
        }
        let module_identifier = module.identifier();
        let is_new_treeshaking = context.compiler_options.is_new_tree_shaking();

        if module.is_self_module() {
            let issuer = match module_graph_module.get_issuer() {
                Some(issuer) => issuer,
                None => {
                    proof {
                        assert(false);
                    }
                    return Ok(Vec::new());
                },
            };
            let resolved = set_resolved_module(
                &mut context.module_graph,
                original_module_identifier,
                dependencies,
                issuer,
                is_new_treeshaking,
            );
            match resolved {
                Ok(()) => {},
                Err(e) => {
                    proof {
                        assert(context.state() =~= pre);
                    }
                    return Err(e);
                },
            }
            proof {
                assert(context.state() =~= self.next_state(pre, is_new_treeshaking));
            }
            return Ok(Vec::new());
        }
        if context.module_graph.module_graph_module_by_identifier(&module_identifier).is_some() {
            let resolved = set_resolved_module(
                &mut context.module_graph,
                original_module_identifier,
                dependencies,
                module_identifier,
                is_new_treeshaking,
            );
            match resolved {
                Ok(()) => {},
                Err(e) => {
                    return Err(e);
                },
            }
            if is_entry {
                context.entry_module_identifiers.insert(module_identifier);
            }
            proof {
                assert(context.state() =~= self.next_state(pre, is_new_treeshaking));
            }
            return Ok(Vec::new());
        }
        context.module_graph.add_module_graph_module(module_graph_module);
        let resolved = set_resolved_module(
            &mut context.module_graph,
            original_module_identifier,
            dependencies,
            module_identifier,
            is_new_treeshaking,
        );
        match resolved {
            Ok(()) => {},
            Err(e) => {
                return Err(e);
            },
        }
        if is_entry {
            context.entry_module_identifiers.insert(module_identifier);
        }
        if let Some(profile) = current_profile {
            let mut profile = profile;
            profile.mark_integration_end();
            current_profile = Some(profile);
        }
        proof {
            assert(context.state() =~= self.next_state(pre, is_new_treeshaking));
        }
        let mut tasks: Vec<BuildTask> = Vec::new();
        tasks.push(
            BuildTask { module, current_profile, compiler_options: context.compiler_options },
        );
        Ok(tasks)
    }
}

} // verus!
