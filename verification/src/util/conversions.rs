//! Conversions between units of memory.
use crate::util::constants::BYTES_IN_PAGE;
use vstd::prelude::*;

verus! {

/// How many pages it takes to hold `bytes` bytes.
pub open spec fn pages_up(bytes: int) -> int {
    (bytes + 4095) / 4096
}

/// How many pages it takes to hold `bytes` bytes.
pub fn bytes_to_pages_up(bytes: usize) -> (pages: usize)
    ensures
        pages == pages_up(bytes as int),
{
    let whole: usize = bytes / BYTES_IN_PAGE;
    if bytes % BYTES_IN_PAGE == 0 {
        whole
    } else {
        whole + 1
    }
}

} // verus!
