//! How much heap there is, which parts of it are in use, and when to collect.
pub mod chunk_map;
pub mod gc_trigger;
pub mod trigger_laws;
