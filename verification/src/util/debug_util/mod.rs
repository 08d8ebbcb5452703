//! Help for debugging.
pub mod breakpoint;
