//! Sizes that every module agrees on.
use vstd::prelude::*;

verus! {

/// Base-two logarithm of the bytes in a page.
pub const LOG_BYTES_IN_PAGE: u8 = 12;

/// Bytes in a page.
pub const BYTES_IN_PAGE: usize = 4096;

/// Bytes in a chunk, the unit in which a space maps memory.
pub const BYTES_IN_CHUNK: usize = 0x40_0000;

} // verus!
