//! What the laws of the immix space speak of: what its tables hold for an address.
use crate::policy::immix::block::BlockState;
use crate::policy::lxr::immixspace::LXRSpace;
use vstd::prelude::*;

verus! {

/// The reference count kept for the 16 bytes that `a` lies in.
pub open spec fn count_at<H>(space: LXRSpace<H>, a: int) -> u8 {
    space.rc.counts@[(a - space.rc.start) / 16]
}

/// Whether the 16 bytes that `a` lies in carry the mark of the current trace.
pub open spec fn marked_at<H>(space: LXRSpace<H>, a: int) -> bool {
    space.immix.mark@[(a - space.immix.common.start) / 16] == space.immix.mark_state
}

/// Where the object at `a` was moved to, if it was.
pub open spec fn moved_to<H>(space: LXRSpace<H>, a: int) -> Option<int> {
    let g = (a - space.immix.forwarding.start) / 16;
    if space.immix.forwarding.status@[g] == 3 {
        Some(space.immix.forwarding.pointers@[g] as int)
    } else {
        None
    }
}

/// The state of the block that `a` lies in.
pub open spec fn state_at<H>(space: LXRSpace<H>, a: int) -> BlockState {
    space.immix.block_states@[(a - space.immix.common.start) / 32768]
}

/// Whether objects are to be moved out of the block that `a` lies in.
pub open spec fn to_evacuate<H>(space: LXRSpace<H>, a: int) -> bool {
    space.immix.defrag_sources@[(a - space.immix.common.start) / 32768]
}

/// Whether an object that started on an earlier line covers the line that `a` lies in.
pub open spec fn covered_at<H>(space: LXRSpace<H>, a: int) -> bool {
    space.rc.straddle@[(a - space.rc.start) / 256] != 0
}

/// The field log entry of the word that `a` lies in.
pub open spec fn log_entry_at<H>(space: LXRSpace<H>, a: int) -> u8 {
    space.immix.field_unlog@[(a - space.immix.common.start) / 8]
}

/// Whether nothing from `lo` up to `hi` has a count.
pub open spec fn no_counts<H>(space: LXRSpace<H>, lo: int, hi: int) -> bool {
    forall|a: int| lo <= a < hi ==> #[trigger] count_at(space, a) == 0
}

/// Whether the memory at `a` belongs to the space.
pub open spec fn inside<H>(space: LXRSpace<H>, a: int) -> bool {
    space.immix.common.start <= a < space.immix.common.start + space.immix.block_states@.len()
        * 32768
}

} // verus!
