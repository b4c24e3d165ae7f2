//! The units of work of the make phase and the state they share.

use std::collections::HashSet;
use vstd::prelude::*;

use crate::module::{Module, ModuleIdentifier, ModuleProfile};
use crate::module_graph::{ModuleGraph, ModuleGraphView};

verus! {

/// How the scheduler runs a unit of work: inline to completion, or off the
/// scheduling thread.
#[derive(Debug, Clone, Copy, PartialEq, Eq)]
pub enum TaskType {
    Sync,
    Async,
}

/// The compiler options that the make phase reads.
#[derive(Debug, Clone, Copy, PartialEq, Eq)]
pub struct CompilerOptions {
    pub new_tree_shaking: bool,
}

impl CompilerOptions {
    pub fn is_new_tree_shaking(&self) -> (r: bool)
        ensures
            r == self.new_tree_shaking,
    {
        self.new_tree_shaking
    }
}

/// What the make phase's shared state holds: the module graph and the entry
/// set.
pub struct MakeState {
    pub graph: ModuleGraphView,
    pub entries: Set<ModuleIdentifier>,
}

/// State threaded through every unit of work of one build generation.
pub struct MakeTaskContext {
    pub module_graph: ModuleGraph,
    pub entry_module_identifiers: HashSet<ModuleIdentifier>,
    pub compiler_options: CompilerOptions,
}

impl MakeTaskContext {
    pub open spec fn state(&self) -> MakeState {
        MakeState { graph: self.module_graph@, entries: self.entry_module_identifiers@ }
    }

    pub fn new(compiler_options: CompilerOptions) -> (r: MakeTaskContext)
        ensures
            r.state().graph.modules.is_empty(),
            r.state().graph.connections.is_empty(),
            r.state().entries.is_empty(),
            r.compiler_options == compiler_options,
    {
        MakeTaskContext {
            module_graph: ModuleGraph::new(),
            entry_module_identifiers: HashSet::new(),
            compiler_options,
        }
    }

    /// Whether `module_identifier` is in the entry set.
    pub fn is_entry_module(&self, module_identifier: &ModuleIdentifier) -> (r: bool)
        ensures
            r == self.state().entries.contains(*module_identifier),
    {
        broadcast use vstd::std_specs::hash::group_hash_axioms;

        self.entry_module_identifiers.contains(module_identifier)
    }

    /// Number of modules in the entry set.
    pub fn entry_count(&self) -> (r: usize)
        ensures
            r == self.state().entries.len(),
    {
        broadcast use vstd::std_specs::hash::group_hash_axioms;

        self.entry_module_identifiers.len()
    }
}

/// The follow-up of a newly added module: parse and transform it, and discover
/// its own dependencies. It owns the module from here on.
#[derive(Debug)]
pub struct BuildTask {
    pub module: Module,
    pub current_profile: Option<ModuleProfile>,
    pub compiler_options: CompilerOptions,
}

impl BuildTask {
    pub fn get_task_type(&self) -> (r: TaskType)
        ensures
            r == TaskType::Async,
    {
        TaskType::Async
    }
}

} // verus!
