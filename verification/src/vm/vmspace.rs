//! The space of the virtual machine's own image.
use crate::policy::immortalspace::{ImmortalSpace, ImmortalSpaceArgs};
use vstd::prelude::*;

verus! {

/// A space that can hold the image of a virtual machine.
pub trait VMSpace: Sized {
    /// Whether the space is in order.
    spec fn space_wf(&self) -> bool;

    /// Whether a space can be created with `args`.
    spec fn creatable(args: ImmortalSpaceArgs) -> bool;

    /// Whether `s` is a new space created with `args`.
    spec fn is_new(args: ImmortalSpaceArgs, s: Self) -> bool;

    /// What preparing for a collection makes of the space.
    spec fn prepared(before: Self, after: Self) -> bool;

    /// What the end of a collection makes of the space.
    spec fn released(before: Self, after: Self) -> bool;

    fn new(args: ImmortalSpaceArgs) -> (s: Self)
        requires
            Self::creatable(args),
        ensures
            s.space_wf(),
            Self::is_new(args, s),
    ;

    fn prepare(&mut self)
        requires
            old(self).space_wf(),
        ensures
            final(self).space_wf(),
            Self::prepared(*old(self), *final(self)),
    ;

    fn release(&mut self)
        requires
            old(self).space_wf(),
        ensures
            final(self).space_wf(),
            Self::released(*old(self), *final(self)),
    ;
}

impl VMSpace for ImmortalSpace {
    open spec fn space_wf(&self) -> bool {
        self.wf()
    }

    open spec fn creatable(args: ImmortalSpaceArgs) -> bool {
        args.start@ + args.granules * 16 <= usize::MAX
    }

    open spec fn is_new(args: ImmortalSpaceArgs, s: Self) -> bool {
        ImmortalSpace::created(args, s)
    }

    open spec fn prepared(before: Self, after: Self) -> bool {
        after == (ImmortalSpace { mark_state: (1 - before.mark_state) as u8, ..before })
    }

    open spec fn released(before: Self, after: Self) -> bool {
        after == before
    }

    fn new(args: ImmortalSpaceArgs) -> (s: Self) {
        ImmortalSpace::new(args)
    }

    fn prepare(&mut self) {
        ImmortalSpace::prepare(self)
    }

    fn release(&mut self) {
        ImmortalSpace::release(self)
    }
}

} // verus!
