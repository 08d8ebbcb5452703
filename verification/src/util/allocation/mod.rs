//! Allocators: what a mutator allocates by.
pub mod allocation_laws;
pub mod allocator;
pub mod allocators;
pub mod immix_allocator;
pub mod large_object_allocator;
