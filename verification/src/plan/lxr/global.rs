//! The spaces of the plan.
use crate::policy::lxr::immixspace::LXRSpace;
use crate::policy::lxr::largeobjectspace::LXRLargeObjectSpace;
use vstd::prelude::*;

verus! {

/// The plan: a space for ordinary objects and one for large objects.
pub struct LXR<H> {
    pub immix_space: LXRSpace<H>,
    pub los: LXRLargeObjectSpace,
}

/// Which plan something belongs to, by where the memory of the spaces of the plan begins.
#[derive(Copy, Clone, PartialEq, Eq, Structural, Debug)]
pub struct PlanHandle {
    pub immix_space: usize,
    pub los: usize,
}

impl<H> LXR<H> {
    /// What the plan is known by.
    pub open spec fn identity(&self) -> PlanHandle {
        PlanHandle {
            immix_space: self.immix_space.immix.common.start,
            los: self.los.los.common.start,
        }
    }

    /// What the plan is known by.
    pub fn handle(&self) -> (handle: PlanHandle)
        ensures
            handle == self.identity(),
    {
        PlanHandle {
            immix_space: self.immix_space.immix.common.start,
            los: self.los.los.common.start,
        }
    }

    pub open spec fn wf(&self) -> bool {
        &&& self.immix_space.wf()
        &&& self.los.wf()
    }
}

} // verus!
