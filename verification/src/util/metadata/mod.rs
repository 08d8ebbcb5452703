//! Metadata kept beside the heap.
pub mod metadata_val_traits;
pub mod side_metadata;
pub mod value_laws;
