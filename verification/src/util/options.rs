//! What can be chosen when the collector is set up.
use vstd::prelude::*;

verus! {

/// How the size of the heap is decided.
#[derive(Copy, Clone, PartialEq, Eq, Structural, Debug)]
pub enum GCTriggerSelector {
    /// The heap has this many bytes.
    FixedHeapSize(usize),
    /// The heap has between so many and so many bytes.
    DynamicHeapSize(usize, usize),
    /// The virtual machine decides.
    Delegated,
}

/// The choices.
#[derive(Copy, Clone, PartialEq, Eq, Structural, Debug)]
pub struct Options {
    pub gc_trigger: GCTriggerSelector,
}

} // verus!
