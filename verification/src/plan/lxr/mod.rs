//! LXR: reference counting with occasional tracing.
pub mod global;
pub mod mutator;
