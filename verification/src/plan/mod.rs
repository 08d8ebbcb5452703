//! Plans and what tracing needs of them.
pub mod closure_laws;
pub mod gc_work;
pub mod global;
pub mod log_bit_laws;
pub mod lxr;
pub mod pause;
pub mod tracing;
pub mod transitive_closure;
pub mod status;
