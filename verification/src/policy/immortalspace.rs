//! The immortal space: its objects are never collected.
use crate::policy::immix::immixspace::CommonSpace;
use crate::util::address::{Address, ObjectReference};
use crate::util::metadata::side_metadata::{SideMetadataSpec, SideTable};
use vstd::prelude::*;

verus! {

/// What an immortal space is created with.
pub struct ImmortalSpaceArgs {
    pub name: &'static str,
    pub start: Address,
    /// How many granules of memory the space has.
    pub granules: usize,
    pub needs_log_bit: bool,
}

/// A space whose objects stay.
pub struct ImmortalSpace {
    pub common: CommonSpace,
    /// One mark per granule.
    pub mark: SideTable,
    /// One entry per granule: whether stores into the object there are to be logged.
    pub unlog: SideTable,
    /// The value of a mark that says that the object was reached.
    pub mark_state: u8,
}

impl ImmortalSpace {
    pub open spec fn wf(&self) -> bool {
        &&& self.mark_state <= 1
        &&& self.unlog@.len() == self.mark@.len()
        &&& self.common.start + self.mark@.len() * 16 <= usize::MAX
    }

    pub open spec fn covers(&self, address: int) -> bool {
        self.common.start <= address < self.common.start + self.mark@.len() * 16
    }

    pub open spec fn marked(&self, object: ObjectReference) -> bool {
        self.mark@[(object@ - self.common.start) / 16] == self.mark_state
    }

    /// Whether `s` is a new space created with `args`.
    pub open spec fn created(args: ImmortalSpaceArgs, s: ImmortalSpace) -> bool {
        &&& s.wf()
        &&& s.common.name == args.name
        &&& s.common.start == args.start@
        &&& s.common.needs_log_bit == args.needs_log_bit
        &&& s.common.extra_metadata@ == Seq::<SideMetadataSpec>::empty()
        &&& s.mark@ == Seq::new(args.granules as nat, |i: int| 0u8)
        &&& s.unlog@ == Seq::new(args.granules as nat, |i: int| 0u8)
        &&& s.mark_state == 0
    }

    pub fn new(args: ImmortalSpaceArgs) -> (s: Self)
        requires
            args.start@ + args.granules * 16 <= usize::MAX,
        ensures
            Self::created(args, s),
    {
        ImmortalSpace {
            common: CommonSpace {
                name: args.name,
                start: args.start.0,
                needs_log_bit: args.needs_log_bit,
                extra_metadata: Vec::new(),
            },
            mark: SideTable::new(args.granules),
            unlog: SideTable::new(args.granules),
            mark_state: 0,
        }
    }

    /// Makes every object one that was not reached.
    pub fn prepare(&mut self)
        requires
            old(self).wf(),
        ensures
            final(self).wf(),
            *final(self) == (ImmortalSpace {
                mark_state: (1 - old(self).mark_state) as u8,
                ..*old(self)
            }),
    {
        self.mark_state = 1 - self.mark_state;
    }

    /// Nothing is collected.
    pub fn release(&mut self)
        ensures
            *final(self) == *old(self),
    {
    }

    /// Sets the whole log table to `value`.
    pub fn fill_side_log_bits(&mut self, value: u8)
        requires
            old(self).wf(),
        ensures
            final(self).wf(),
            *final(self) == (ImmortalSpace { unlog: final(self).unlog, ..*old(self) }),
            final(self).unlog@ == Seq::new(old(self).unlog@.len(), |i: int| value),
    {
        let n: usize = self.unlog.entries.len();
        self.unlog.fill(0, n, value);
        assert(self.unlog@ == Seq::new(old(self).unlog@.len(), |i: int| value));
    }
}

} // verus!
