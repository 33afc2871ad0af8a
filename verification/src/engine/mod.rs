//! The engine: the resource manager and the task manager, what a dispatch
//! cycle passes between them, and the task of the engine itself.

use vstd::prelude::*;

pub mod batch;
pub mod engine_task;
pub mod resource_manager;
pub mod resources_by_kind;
pub mod sharing;
pub mod task_manager;

verus! {

/// Possible engine errors.
#[derive(Debug, Clone, Copy)]
pub enum WGpuEngineError {
    InitializationFailed,
}

} // verus!
