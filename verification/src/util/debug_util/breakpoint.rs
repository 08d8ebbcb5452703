//! Functions that do nothing, for a debugger to stop at.
use vstd::prelude::*;

verus! {

/// A collection starts, the `gc_count`th.
pub fn gc_start(_gc_count: usize) {
}

/// A collection ends, the `gc_count`th.
pub fn gc_end(_gc_count: usize) {
}

/// An object is traced.
pub fn trace_object(_object: usize) {
}

/// An object is scanned.
pub fn scan_object(_object: usize) {
}

/// An edge is followed.
pub fn follow_edge(_from_object: usize, _to_object: usize) {
}

} // verus!
