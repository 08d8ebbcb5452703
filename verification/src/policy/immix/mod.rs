//! The immix space: memory handed out in blocks, and reused in lines.
pub mod block;
pub mod block_laws;
pub mod immixspace;
pub mod line;
