//! Modules as the add step sees them: an identifier, and whether the module is
//! the placeholder for a circular self-import.

use vstd::prelude::*;

verus! {

/// Stable key of a module in the module graph.
pub type ModuleIdentifier = u64;

/// Identifies one import or require edge.
pub type DependencyId = u32;

/// A module handed to the add step.
///
/// `SelfModule` stands for a module's own circular self-import: it is never
/// a node of the graph, and its dependencies resolve to its issuer instead.
#[derive(Debug, PartialEq, Eq)]
pub enum Module {
    Normal { identifier: ModuleIdentifier },
    SelfModule { identifier: ModuleIdentifier },
}

impl Module {
    pub open spec fn spec_identifier(&self) -> ModuleIdentifier {
        match self {
            Module::Normal { identifier } => *identifier,
            Module::SelfModule { identifier } => *identifier,
        }
    }

    pub open spec fn spec_is_self_module(&self) -> bool {
        self is SelfModule
    }

    #[verifier::when_used_as_spec(spec_identifier)]
    pub fn identifier(&self) -> (r: ModuleIdentifier)
        ensures
            r == self.spec_identifier(),
    {
        match self {
            Module::Normal { identifier } => *identifier,
            Module::SelfModule { identifier } => *identifier,
        }
    }

    #[verifier::when_used_as_spec(spec_is_self_module)]
    pub fn is_self_module(&self) -> (r: bool)
        ensures
            r == self.spec_is_self_module(),
    {
        match self {
            Module::Normal { .. } => false,
            Module::SelfModule { .. } => true,
        }
    }
}

/// Timing markers of the integration phase of one module.
///
/// Purely observational: nothing in the add step reads them back.
#[derive(Debug, Clone, Copy, PartialEq, Eq)]
pub struct ModuleProfile {
    pub integration_started: bool,
    pub integration_ended: bool,
}

impl ModuleProfile {
    pub fn new() -> (r: ModuleProfile)
        ensures
            !r.integration_started,
            !r.integration_ended,
    {
        ModuleProfile { integration_started: false, integration_ended: false }
    }

    pub fn mark_integration_start(&mut self)
        ensures
            final(self).integration_started,
            final(self).integration_ended == old(self).integration_ended,
    {
        self.integration_started = true;
    }

    pub fn mark_integration_end(&mut self)
        ensures
            final(self).integration_ended,
            final(self).integration_started == old(self).integration_started,
    {
        self.integration_ended = true;
    }
}

} // verus!
