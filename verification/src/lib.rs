//! A dependency-tracked manager of GPU resources: tasks describe resources
//! by descriptors, the engine derives the dependency graph, tracks what is
//! stale and rebuilds it in dependency order.

pub mod common;
pub mod entity_manager;
pub mod engine;
pub mod utils;
