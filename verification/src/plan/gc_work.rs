//! Packets of work on all spaces of a plan.
use crate::policy::immortalspace::ImmortalSpace;
use crate::policy::largeobjectspace::LargeObjectSpace;
use crate::policy::lxr::largeobjectspace::LXRLargeObjectSpace;
use vstd::prelude::*;

verus! {

/// A space, or several, whose objects have log bits.
pub trait SideLogBits: Sized {
    spec fn bits_wf(&self) -> bool;

    /// The log bits, one after the other.
    spec fn log_bits(&self) -> Seq<u8>;

    /// Whether nothing but the log bits differs between `before` and `after`.
    spec fn same_but_log_bits(before: Self, after: Self) -> bool;

    fn set_side_log_bits(&mut self)
        requires
            old(self).bits_wf(),
        ensures
            final(self).bits_wf(),
            final(self).log_bits() == Seq::new(old(self).log_bits().len(), |i: int| 1u8),
            Self::same_but_log_bits(*old(self), *final(self)),
    ;

    fn clear_side_log_bits(&mut self)
        requires
            old(self).bits_wf(),
        ensures
            final(self).bits_wf(),
            final(self).log_bits() == Seq::new(old(self).log_bits().len(), |i: int| 0u8),
            Self::same_but_log_bits(*old(self), *final(self)),
    ;
}

impl SideLogBits for ImmortalSpace {
    open spec fn bits_wf(&self) -> bool {
        self.wf()
    }

    open spec fn log_bits(&self) -> Seq<u8> {
        self.unlog@
    }

    open spec fn same_but_log_bits(before: Self, after: Self) -> bool {
        after == (ImmortalSpace { unlog: after.unlog, ..before })
    }

    fn set_side_log_bits(&mut self) {
        self.fill_side_log_bits(1);
    }

    fn clear_side_log_bits(&mut self) {
        self.fill_side_log_bits(0);
    }
}

impl SideLogBits for LXRLargeObjectSpace {
    open spec fn bits_wf(&self) -> bool {
        self.wf()
    }

    open spec fn log_bits(&self) -> Seq<u8> {
        self.los.field_unlog@
    }

    open spec fn same_but_log_bits(before: Self, after: Self) -> bool {
        after == (LXRLargeObjectSpace {
            los: LargeObjectSpace { field_unlog: after.los.field_unlog, ..before.los },
            ..before
        })
    }

    fn set_side_log_bits(&mut self) {
        LXRLargeObjectSpace::set_side_log_bits(self);
    }

    fn clear_side_log_bits(&mut self) {
        LXRLargeObjectSpace::clear_side_log_bits(self);
    }
}

/// The spaces that most plans have.
pub struct CommonPlan {
    pub immortal: ImmortalSpace,
    pub nonmoving: ImmortalSpace,
}

impl SideLogBits for CommonPlan {
    open spec fn bits_wf(&self) -> bool {
        self.immortal.wf() && self.nonmoving.wf()
    }

    open spec fn log_bits(&self) -> Seq<u8> {
        self.immortal.unlog@ + self.nonmoving.unlog@
    }

    open spec fn same_but_log_bits(before: Self, after: Self) -> bool {
        &&& ImmortalSpace::same_but_log_bits(before.immortal, after.immortal)
        &&& ImmortalSpace::same_but_log_bits(before.nonmoving, after.nonmoving)
        &&& after.immortal.unlog@.len() == before.immortal.unlog@.len()
    }

    fn set_side_log_bits(&mut self) {
        self.immortal.fill_side_log_bits(1);
        self.nonmoving.fill_side_log_bits(1);
    }

    fn clear_side_log_bits(&mut self) {
        self.immortal.fill_side_log_bits(0);
        self.nonmoving.fill_side_log_bits(0);
    }
}

/// Whether `after` is a space in order that is `before` with every log bit being `value`; or nothing
/// where `before` is nothing.
pub open spec fn all_bits<S: SideLogBits>(before: Option<S>, value: u8, after: Option<S>) -> bool {
    match (before, after) {
        (Some(b), Some(a)) => {
            &&& a.bits_wf()
            &&& a.log_bits() == Seq::new(b.log_bits().len(), |i: int| value)
            &&& S::same_but_log_bits(b, a)
        },
        (None, None) => true,
        _ => false,
    }
}

/// A packet that sets the log bits of all objects.
pub struct SetCommonPlanUnlogBits;

impl SetCommonPlanUnlogBits {
    /// Sets the log bits of the common spaces, and of the plan's own space if it has one.
    pub fn do_work<C: SideLogBits, S: SideLogBits>(
        &mut self,
        common_plan: &mut C,
        extra_space: &mut Option<S>,
    )
        requires
            old(common_plan).bits_wf(),
            *old(extra_space) matches Some(s) ==> s.bits_wf(),
        ensures
            final(common_plan).bits_wf(),
            final(common_plan).log_bits() == Seq::new(
                old(common_plan).log_bits().len(),
                |i: int| 1u8,
            ),
            C::same_but_log_bits(*old(common_plan), *final(common_plan)),
            all_bits(*old(extra_space), 1, *final(extra_space)),
    {
        common_plan.set_side_log_bits();
        match extra_space {
            Some(space) => space.set_side_log_bits(),
            None => {},
        }
    }
}

/// A packet that clears the log bits of all objects.
pub struct ClearCommonPlanUnlogBits;

impl ClearCommonPlanUnlogBits {
    /// Clears the log bits of the common spaces, and of the plan's own space if it has one.
    pub fn do_work<C: SideLogBits, S: SideLogBits>(
        &mut self,
        common_plan: &mut C,
        extra_space: &mut Option<S>,
    )
        requires
            old(common_plan).bits_wf(),
            *old(extra_space) matches Some(s) ==> s.bits_wf(),
        ensures
            final(common_plan).bits_wf(),
            final(common_plan).log_bits() == Seq::new(
                old(common_plan).log_bits().len(),
                |i: int| 0u8,
            ),
            C::same_but_log_bits(*old(common_plan), *final(common_plan)),
            all_bits(*old(extra_space), 0, *final(extra_space)),
    {
        common_plan.clear_side_log_bits();
        match extra_space {
            Some(space) => space.clear_side_log_bits(),
            None => {},
        }
    }
}

} // verus!
