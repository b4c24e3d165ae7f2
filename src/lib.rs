//! Incremental module-graph assembly: turns each discovered dependency request
//! into a linked, deduplicated node of the module graph, and hands every new
//! module on to the build phase exactly once.

pub mod module;
pub mod module_graph;
pub mod task;
pub mod add;
pub mod task_loop;
pub mod laws;
