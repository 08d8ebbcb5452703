//! Why the mutators are stopped.
use vstd::prelude::*;

verus! {

/// The kinds of pause.
#[derive(Copy, Clone, PartialEq, Eq, Structural, Debug)]
pub enum Pause {
    /// A collection by reference counts alone.
    RefCount,
    /// The start of a concurrent trace.
    InitialMark,
    /// The end of a concurrent trace.
    FinalMark,
    /// A collection that traces the whole heap at once.
    Full,
}

} // verus!
