//! The kinds of space a heap is made of.
pub mod immix;
pub mod immortalspace;
pub mod largeobjectspace;
pub mod lxr;
pub mod page_laws;
