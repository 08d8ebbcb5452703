//! What is generated for the plans of a program.
pub mod derive_input;
pub mod derive_laws;
pub mod trace_object;
