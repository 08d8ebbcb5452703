//! What a virtual machine provides to the collector.
pub mod active_plan;
pub mod binding;
pub mod object_model;
pub mod reference_glue;
pub mod vmspace;
