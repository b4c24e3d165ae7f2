//! The module graph: nodes keyed by module identifier, and the edges that
//! link each resolved dependency to the module it targets.

use std::collections::HashMap;
use vstd::prelude::*;

use crate::module::{DependencyId, ModuleIdentifier};

verus! {

broadcast use vstd::std_specs::hash::group_hash_axioms;

/// A node of the module graph: the module it stands for, and its issuer
/// (the module whose import caused it to be requested), if known.
#[derive(Debug, Clone, Copy, PartialEq, Eq)]
pub struct ModuleGraphModule {
    pub module_identifier: ModuleIdentifier,
    pub issuer: Option<ModuleIdentifier>,
}

impl ModuleGraphModule {
    pub fn new(module_identifier: ModuleIdentifier, issuer: Option<ModuleIdentifier>) -> (r:
        ModuleGraphModule)
        ensures
            r.module_identifier == module_identifier,
            r.issuer == issuer,
    {
        ModuleGraphModule { module_identifier, issuer }
    }

    pub fn get_issuer(&self) -> (r: Option<ModuleIdentifier>)
        ensures
            r == self.issuer,
    {
        self.issuer
    }
}

/// A resolved dependency edge.
///
/// `original_module_identifier` is the module that authored the dependency
/// (none for an entry request); `module_identifier` is its target. Under
/// tree-shaking mode the edge also takes part in export-usage tracking, which
/// `tracks_export_usage` records.
#[derive(Debug, Clone, Copy, PartialEq, Eq)]
pub struct ModuleGraphConnection {
    pub original_module_identifier: Option<ModuleIdentifier>,
    pub module_identifier: ModuleIdentifier,
    pub tracks_export_usage: bool,
}

/// The one way edge resolution fails: its target has no node in the graph.
#[derive(Debug, Clone, Copy, PartialEq, Eq)]
pub enum ModuleGraphError {
    UnresolvedTarget { dependency_id: DependencyId, module_identifier: ModuleIdentifier },
}

/// What a module graph holds: its nodes, and the edge of each resolved
/// dependency.
pub struct ModuleGraphView {
    pub modules: Map<ModuleIdentifier, ModuleGraphModule>,
    pub connections: Map<DependencyId, ModuleGraphConnection>,
}

/// The edge that resolving a dependency records.
pub open spec fn connection_of(
    original_module_identifier: Option<ModuleIdentifier>,
    module_identifier: ModuleIdentifier,
    is_new_treeshaking: bool,
) -> ModuleGraphConnection {
    ModuleGraphConnection {
        original_module_identifier,
        module_identifier,
        tracks_export_usage: is_new_treeshaking,
    }
}

/// The edges after each dependency of `dependencies` has been resolved to
/// `module_identifier`: those dependencies point at it, every other edge is
/// kept.
pub open spec fn resolve_all(
    connections: Map<DependencyId, ModuleGraphConnection>,
    original_module_identifier: Option<ModuleIdentifier>,
    dependencies: Seq<DependencyId>,
    module_identifier: ModuleIdentifier,
    is_new_treeshaking: bool,
) -> Map<DependencyId, ModuleGraphConnection> {
    connections.union_prefer_right(
        dependencies.to_set().mk_map(
            |d: DependencyId|
                connection_of(original_module_identifier, module_identifier, is_new_treeshaking),
        ),
    )
}

pub struct ModuleGraph {
    modules: HashMap<ModuleIdentifier, ModuleGraphModule>,
    connections: HashMap<DependencyId, ModuleGraphConnection>,
}

impl View for ModuleGraph {
    type V = ModuleGraphView;

    closed spec fn view(&self) -> ModuleGraphView {
        ModuleGraphView { modules: self.modules@, connections: self.connections@ }
    }
}

impl ModuleGraph {
    /// The graph holds finitely many nodes and edges.
    pub proof fn lemma_view_finite(&self)
        ensures
            self@.modules.dom().finite(),
            self@.connections.dom().finite(),
    {
    }

    pub fn new() -> (r: ModuleGraph)
        ensures
            r@.modules == Map::<ModuleIdentifier, ModuleGraphModule>::empty(),
            r@.connections == Map::<DependencyId, ModuleGraphConnection>::empty(),
    {
        ModuleGraph { modules: HashMap::new(), connections: HashMap::new() }
    }

    /// Number of nodes.
    pub fn module_count(&self) -> (r: usize)
        ensures
            r == self@.modules.len(),
    {
        self.modules.len()
    }

    pub fn module_graph_module_by_identifier(&self, module_identifier: &ModuleIdentifier) -> (r:
        Option<&ModuleGraphModule>)
        ensures
            match r {
                Some(m) => self@.modules.contains_key(*module_identifier) && *m
                    == self@.modules[*module_identifier],
                None => !self@.modules.contains_key(*module_identifier),
            },
    {
        self.modules.get(module_identifier)
    }

    /// Inserts a node keyed by its module's identifier. The first insertion
    /// wins: a node already present for that identifier is kept as it is.
    pub fn add_module_graph_module(&mut self, module_graph_module: ModuleGraphModule)
        ensures
            final(self)@.modules == if old(self)@.modules.contains_key(
                module_graph_module.module_identifier,
            ) {
                old(self)@.modules
            } else {
                old(self)@.modules.insert(
                    module_graph_module.module_identifier,
                    module_graph_module,
                )
            },
            final(self)@.connections == old(self)@.connections,
    {
        if !self.modules.contains_key(&module_graph_module.module_identifier) {
            self.modules.insert(module_graph_module.module_identifier, module_graph_module);
        }
    }

    /// The edge that `dependency_id` was resolved to, if any.
    pub fn connection_by_dependency_id(&self, dependency_id: &DependencyId) -> (r: Option<
        &ModuleGraphConnection,
    >)
        ensures
            match r {
                Some(c) => self@.connections.contains_key(*dependency_id) && *c
                    == self@.connections[*dependency_id],
                None => !self@.connections.contains_key(*dependency_id),
            },
    {
        self.connections.get(dependency_id)
    }

    /// The module that `dependency_id` was resolved to, if any.
    pub fn get_resolved_module(&self, dependency_id: &DependencyId) -> (r: Option<
        ModuleIdentifier,
    >)
        ensures
            r == if self@.connections.contains_key(*dependency_id) {
                Some(self@.connections[*dependency_id].module_identifier)
            } else {
                None
            },
    {
        match self.connections.get(dependency_id) {
            Some(c) => Some(c.module_identifier),
            None => None,
        }
    }

    /// Records that `dependency_id`, authored by `original_module_identifier`,
    /// resolves to `module_identifier`. Fails, changing nothing, when that
    /// module has no node.
    pub fn set_resolved_module(
        &mut self,
        original_module_identifier: Option<ModuleIdentifier>,
        dependency_id: DependencyId,
        module_identifier: ModuleIdentifier,
        is_new_treeshaking: bool,
    ) -> (r: Result<(), ModuleGraphError>)
        ensures
            final(self)@.modules == old(self)@.modules,
            match r {
                Ok(()) => {
                    &&& old(self)@.modules.contains_key(module_identifier)
                    &&& final(self)@.connections == old(self)@.connections.insert(
                        dependency_id,
                        connection_of(
                            original_module_identifier,
                            module_identifier,
                            is_new_treeshaking,
                        ),
                    )
                },
                Err(e) => {
                    &&& !old(self)@.modules.contains_key(module_identifier)
                    &&& e == ModuleGraphError::UnresolvedTarget { dependency_id, module_identifier }
                    &&& final(self)@.connections == old(self)@.connections
                },
            },
    {
        if !self.modules.contains_key(&module_identifier) {
            return Err(ModuleGraphError::UnresolvedTarget { dependency_id, module_identifier });
        }
        let connection = ModuleGraphConnection {
            original_module_identifier,
            module_identifier,
            tracks_export_usage: is_new_treeshaking,
        };
        self.connections.insert(dependency_id, connection);
        Ok(())
    }
}

} // verus!
