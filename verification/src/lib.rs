//! Ref-counting immix memory management: LXR's block and large object spaces, the reference
//! processor for soft, weak and phantom references, collection triggers and the allocators of a
//! mutator, with their behaviour stated as contracts.
pub mod macros;
pub mod memory_manager;
pub mod mmtk;
pub mod plan;
pub mod policy;
pub mod scheduler;
pub mod util;
pub mod vm;
