//! Counters, and what they keep their readings in.
pub mod array;
