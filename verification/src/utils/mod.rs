//! Utility functions and structures.

pub mod buffer_manager;
