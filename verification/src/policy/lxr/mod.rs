//! Spaces that count references: the immix space and the large object space of LXR.
//!
//! Each wraps the state of the space it is named after, and decides by reference counts, and by
//! marks where a trace is complete, what is alive.
pub mod block;
pub mod evacuation_laws;
pub mod frame_laws;
pub mod immixspace;
pub mod large_object_frame_laws;
pub mod large_object_laws;
pub mod largeobjectspace;
pub mod laws;
pub mod liveness_laws;
pub mod search_laws;
pub mod sweep_laws;
pub mod terms;
pub mod trace_laws;

pub use block::LXRBlockExt;
pub use immixspace::{ImmixHooks, LXRSpace};
pub use largeobjectspace::LXRLargeObjectSpace;
