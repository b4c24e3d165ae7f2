use std::collections::VecDeque;

use rspack_make::add::{set_resolved_module, AddTask};
use rspack_make::module::{Module, ModuleProfile};
use rspack_make::module_graph::{
    ModuleGraph, ModuleGraphConnection, ModuleGraphError, ModuleGraphModule,
};
use rspack_make::task::{CompilerOptions, MakeTaskContext, TaskType};
use rspack_make::task_loop::run_add_tasks;

const M0: u64 = 100;
const X: u64 = 200;

fn discover(
    original: Option<u64>,
    identifier: u64,
    issuer: Option<u64>,
    dependencies: Vec<u32>,
    is_entry: bool,
) -> AddTask {
    AddTask {
        original_module_identifier: original,
        module: Module::Normal { identifier },
        module_graph_module: ModuleGraphModule::new(identifier, issuer),
        dependencies,
        is_entry,
        current_profile: None,
    }
}

fn self_import(identifier: u64, issuer: u64, dependencies: Vec<u32>) -> AddTask {
    AddTask {
        original_module_identifier: Some(issuer),
        module: Module::SelfModule { identifier },
        module_graph_module: ModuleGraphModule::new(identifier, Some(issuer)),
        dependencies,
        is_entry: false,
        current_profile: None,
    }
}

fn context() -> MakeTaskContext {
    MakeTaskContext::new(CompilerOptions { new_tree_shaking: false })
}

/// A context whose graph already holds M0.
fn context_with_m0() -> MakeTaskContext {
    let mut ctx = context();
    let builds = discover(None, M0, None, vec![], false).sync_run(&mut ctx).unwrap();
    assert_eq!(builds.len(), 1);
    ctx
}

#[test]
fn entry_request_adds_new_module() {
    let mut ctx = context();
    let builds = discover(None, X, None, vec![1], true).sync_run(&mut ctx).unwrap();
    assert_eq!(ctx.module_graph.module_count(), 1);
    assert!(ctx.module_graph.module_graph_module_by_identifier(&X).is_some());
    assert_eq!(ctx.module_graph.get_resolved_module(&1), Some(X));
    assert_eq!(
        ctx.module_graph.connection_by_dependency_id(&1),
        Some(&ModuleGraphConnection {
            original_module_identifier: None,
            module_identifier: X,
            tracks_export_usage: false,
        })
    );
    assert_eq!(ctx.entry_count(), 1);
    assert!(ctx.is_entry_module(&X));
    assert_eq!(builds.len(), 1);
    assert_eq!(builds[0].module, Module::Normal { identifier: X });
    assert_eq!(builds[0].get_task_type(), TaskType::Async);
}

#[test]
fn duplicate_discovery_links_existing_node() {
    let mut ctx = context();
    discover(None, X, None, vec![1], true).sync_run(&mut ctx).unwrap();
    let builds = discover(Some(M0), X, Some(M0), vec![2], false).sync_run(&mut ctx).unwrap();
    assert_eq!(builds.len(), 0);
    assert_eq!(ctx.module_graph.module_count(), 1);
    assert_eq!(ctx.module_graph.get_resolved_module(&2), Some(X));
    assert_eq!(
        ctx.module_graph.connection_by_dependency_id(&2).unwrap().original_module_identifier,
        Some(M0)
    );
    // the first node is kept: its issuer is still unknown
    assert_eq!(ctx.module_graph.module_graph_module_by_identifier(&X).unwrap().get_issuer(), None);
}

#[test]
fn self_module_links_to_issuer() {
    let mut ctx = context_with_m0();
    let builds = self_import(300, M0, vec![3]).sync_run(&mut ctx).unwrap();
    assert_eq!(builds.len(), 0);
    assert_eq!(ctx.module_graph.module_count(), 1);
    assert!(ctx.module_graph.module_graph_module_by_identifier(&300).is_none());
    assert_eq!(ctx.module_graph.get_resolved_module(&3), Some(M0));
    assert_eq!(ctx.entry_count(), 0);
}

#[test]
fn self_module_with_absent_issuer_fails() {
    let mut ctx = context();
    let result = self_import(300, M0, vec![7, 8]).sync_run(&mut ctx);
    assert_eq!(
        result.unwrap_err(),
        ModuleGraphError::UnresolvedTarget { dependency_id: 7, module_identifier: M0 }
    );
    assert_eq!(ctx.module_graph.module_count(), 0);
    assert_eq!(ctx.module_graph.get_resolved_module(&7), None);
    assert_eq!(ctx.module_graph.get_resolved_module(&8), None);
}

#[test]
fn self_module_without_dependencies_succeeds() {
    let mut ctx = context();
    let builds = self_import(300, M0, vec![]).sync_run(&mut ctx).unwrap();
    assert!(builds.is_empty());
    assert_eq!(ctx.module_graph.module_count(), 0);
}

#[test]
fn new_module_added_once_across_discoveries() {
    let mut ctx = context();
    let mut queue = VecDeque::new();
    queue.push_back(discover(None, X, None, vec![1, 2], false));
    queue.push_back(discover(Some(M0), X, Some(M0), vec![3], false));
    queue.push_back(discover(Some(M0), X, Some(M0), vec![4, 5, 6], false));
    let builds = run_add_tasks(&mut ctx, queue).unwrap();
    assert_eq!(builds.len(), 1);
    assert_eq!(builds[0].module.identifier(), X);
    assert_eq!(ctx.module_graph.module_count(), 1);
    for d in 1..=6u32 {
        assert_eq!(ctx.module_graph.get_resolved_module(&d), Some(X));
    }
}

#[test]
fn repeated_entry_present_once() {
    let mut ctx = context();
    let mut queue = VecDeque::new();
    for d in 0..4u32 {
        queue.push_back(discover(None, X, None, vec![d], true));
    }
    let builds = run_add_tasks(&mut ctx, queue).unwrap();
    assert_eq!(builds.len(), 1);
    assert_eq!(ctx.entry_count(), 1);
    assert!(ctx.is_entry_module(&X));
}

#[test]
fn entry_membership_is_any_discovery_flag() {
    let mut ctx = context();
    let mut queue = VecDeque::new();
    queue.push_back(discover(None, X, None, vec![1], true));
    queue.push_back(discover(Some(M0), X, Some(M0), vec![2], false));
    run_add_tasks(&mut ctx, queue).unwrap();
    assert!(ctx.is_entry_module(&X));
    assert_eq!(ctx.entry_count(), 1);

    // the other arrival order gives the same entry set
    let mut ctx = context();
    let mut queue = VecDeque::new();
    queue.push_back(discover(Some(M0), X, Some(M0), vec![2], false));
    queue.push_back(discover(None, X, None, vec![1], true));
    run_add_tasks(&mut ctx, queue).unwrap();
    assert!(ctx.is_entry_module(&X));
    assert_eq!(ctx.entry_count(), 1);
}

#[test]
fn duplicate_entry_request_enters_existing_module() {
    let mut ctx = context();
    discover(Some(M0), X, Some(M0), vec![1], false).sync_run(&mut ctx).unwrap();
    assert!(!ctx.is_entry_module(&X));
    let builds = discover(None, X, None, vec![2], true).sync_run(&mut ctx).unwrap();
    assert!(builds.is_empty());
    assert!(ctx.is_entry_module(&X));
    assert_eq!(ctx.module_graph.module_count(), 1);
}

#[test]
fn self_module_entry_request_is_not_entered() {
    let mut ctx = context_with_m0();
    let mut task = self_import(300, M0, vec![3]);
    task.is_entry = true;
    task.sync_run(&mut ctx).unwrap();
    assert_eq!(ctx.entry_count(), 0);
}

#[test]
fn no_entry_without_entry_request() {
    let mut ctx = context();
    discover(Some(M0), X, Some(M0), vec![1], false).sync_run(&mut ctx).unwrap();
    assert_eq!(ctx.entry_count(), 0);
}

#[test]
fn run_stops_at_first_failure() {
    let mut ctx = context();
    let mut queue = VecDeque::new();
    queue.push_back(discover(None, X, None, vec![1], true));
    queue.push_back(self_import(300, M0, vec![2]));
    queue.push_back(discover(None, 400, None, vec![3], false));
    let result = run_add_tasks(&mut ctx, queue);
    assert_eq!(
        result.unwrap_err(),
        ModuleGraphError::UnresolvedTarget { dependency_id: 2, module_identifier: M0 }
    );
    // the step before the failure keeps its effect, the one after never runs
    assert_eq!(ctx.module_graph.module_count(), 1);
    assert_eq!(ctx.module_graph.get_resolved_module(&1), Some(X));
    assert_eq!(ctx.module_graph.get_resolved_module(&3), None);
}

#[test]
fn run_of_mixed_discoveries() {
    let mut ctx = context();
    let mut queue = VecDeque::new();
    queue.push_back(discover(None, M0, None, vec![1], true));
    queue.push_back(discover(Some(M0), X, Some(M0), vec![2], false));
    queue.push_back(discover(Some(M0), X, Some(M0), vec![3], false));
    queue.push_back(self_import(300, M0, vec![4]));
    let builds = run_add_tasks(&mut ctx, queue).unwrap();
    let modules: Vec<u64> = builds.iter().map(|b| b.module.identifier()).collect();
    assert_eq!(modules, vec![M0, X]);
    assert_eq!(ctx.module_graph.get_resolved_module(&4), Some(M0));
    assert_eq!(ctx.module_graph.module_count(), 2);
}

#[test]
fn empty_run_changes_nothing() {
    let mut ctx = context();
    let builds = run_add_tasks(&mut ctx, VecDeque::new()).unwrap();
    assert!(builds.is_empty());
    assert_eq!(ctx.module_graph.module_count(), 0);
}

#[test]
fn tree_shaking_mode_tracks_edge_usage() {
    let mut ctx = MakeTaskContext::new(CompilerOptions { new_tree_shaking: true });
    let builds = discover(None, X, None, vec![1], false).sync_run(&mut ctx).unwrap();
    assert!(ctx.module_graph.connection_by_dependency_id(&1).unwrap().tracks_export_usage);
    assert_eq!(builds[0].compiler_options, CompilerOptions { new_tree_shaking: true });
}

#[test]
fn profile_is_marked_and_handed_on() {
    let mut ctx = context();
    let mut task = discover(None, X, None, vec![1], false);
    task.current_profile = Some(ModuleProfile::new());
    assert_eq!(task.get_task_type(), TaskType::Sync);
    let builds = task.sync_run(&mut ctx).unwrap();
    assert_eq!(
        builds[0].current_profile,
        Some(ModuleProfile { integration_started: true, integration_ended: true })
    );
}

#[test]
fn resolving_to_absent_target_fails() {
    let mut graph = ModuleGraph::new();
    assert_eq!(
        graph.set_resolved_module(None, 9, X, false),
        Err(ModuleGraphError::UnresolvedTarget { dependency_id: 9, module_identifier: X })
    );
    assert_eq!(graph.get_resolved_module(&9), None);
    assert_eq!(
        set_resolved_module(&mut graph, Some(M0), vec![5, 6], X, false),
        Err(ModuleGraphError::UnresolvedTarget { dependency_id: 5, module_identifier: X })
    );
    assert_eq!(set_resolved_module(&mut graph, Some(M0), vec![], X, false), Ok(()));
}

#[test]
fn resolving_links_every_dependency() {
    let mut graph = ModuleGraph::new();
    graph.add_module_graph_module(ModuleGraphModule::new(X, None));
    assert_eq!(set_resolved_module(&mut graph, Some(M0), vec![5, 6, 5], X, true), Ok(()));
    assert_eq!(graph.get_resolved_module(&5), Some(X));
    assert_eq!(graph.get_resolved_module(&6), Some(X));
    assert_eq!(graph.get_resolved_module(&7), None);
}

#[test]
fn first_node_insertion_wins() {
    let mut graph = ModuleGraph::new();
    graph.add_module_graph_module(ModuleGraphModule::new(X, Some(M0)));
    graph.add_module_graph_module(ModuleGraphModule::new(X, Some(300)));
    assert_eq!(graph.module_count(), 1);
    assert_eq!(graph.module_graph_module_by_identifier(&X).unwrap().get_issuer(), Some(M0));
}

#[test]
fn module_reports_its_kind() {
    assert!(Module::SelfModule { identifier: 1 }.is_self_module());
    assert!(!Module::Normal { identifier: 1 }.is_self_module());
    assert_eq!(Module::SelfModule { identifier: 4 }.identifier(), 4);
    assert!(CompilerOptions { new_tree_shaking: true }.is_new_tree_shaking());
}
