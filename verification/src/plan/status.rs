//! What a plan says about the collection in progress.
use vstd::prelude::*;

verus! {

/// The state of a plan during a collection, as far as other parts ask for it.
#[derive(Copy, Clone)]
pub struct PlanStatus {
    /// The last collection did not free enough.
    pub emergency_collection: bool,
    /// Only new objects are collected.
    pub current_gc_nursery: bool,
    /// It is known where objects go only once it is known which are alive.
    pub needs_forward_after_liveness: bool,
}

impl PlanStatus {
    pub fn is_emergency_collection(&self) -> (b: bool)
        ensures
            b == self.emergency_collection,
    {
        self.emergency_collection
    }

    pub fn is_current_gc_nursery(&self) -> (b: bool)
        ensures
            b == self.current_gc_nursery,
    {
        self.current_gc_nursery
    }
}

} // verus!
