//! The limits that a virtual machine sets.
use vstd::prelude::*;

verus! {

/// A virtual machine that uses the collector.
pub trait VMBinding {
    /// Every allocation is aligned at least so.
    const MIN_ALIGNMENT: usize;

    /// No allocation asks for a greater alignment.
    const MAX_ALIGNMENT: usize;
}

} // verus!
