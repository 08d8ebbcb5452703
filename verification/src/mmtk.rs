//! An instance of the collector.
use crate::plan::lxr::global::LXR;
use crate::policy::immix::immixspace::{ImmixSpaceArgs, PlanCreateSpaceArgs};
use crate::policy::largeobjectspace::LargeObjectSpaceArgs;
use crate::policy::lxr::immixspace::LXRSpace;
use crate::policy::lxr::largeobjectspace::LXRLargeObjectSpace;
use crate::util::address::Address;
use crate::util::allocation::allocator::AllocatorContext;
use crate::util::options::{GCTriggerSelector, Options};
use vstd::prelude::*;

verus! {

/// Where the space for ordinary objects begins.
pub const IMMIX_SPACE_START: usize = 0x4000_0000;

/// Where the space for large objects begins, unless the space for ordinary objects reaches further.
pub const LARGE_OBJECT_SPACE_START: usize = 0x8000_0000;

/// Where the space for large objects begins in a heap of `size` bytes: at a page after the space for
/// ordinary objects.
pub open spec fn large_object_space_start(size: int) -> int {
    if size <= 0x4000_0000 {
        LARGE_OBJECT_SPACE_START as int
    } else {
        IMMIX_SPACE_START + (size + 4095) / 4096 * 4096
    }
}

/// Whether there are addresses for a heap of `size` bytes, with some to spare after it.
pub open spec fn addressable(size: int) -> bool {
    large_object_space_start(size) + size + 4096 <= usize::MAX
}

/// How an instance is set up.
pub struct MMTKBuilder {
    pub options: Options,
}

/// An instance of the collector.
pub struct MMTK<H> {
    pub plan: LXR<H>,
    pub options: Options,
    pub context: AllocatorContext,
    /// Whether collections may be triggered.
    pub collection_enabled: bool,
    /// Whether the workers have been started.
    pub initialized: bool,
}

impl<H> MMTK<H> {
    /// A new instance whose heap has `size` bytes. Both spaces are large enough for all of it.
    pub fn new(builder: &MMTKBuilder, size: usize) -> (m: Self)
        requires
            builder.options.gc_trigger == GCTriggerSelector::FixedHeapSize(size),
            addressable(size as int),
        ensures
            m.plan.wf(),
            m.plan.immix_space.immix.common.start == IMMIX_SPACE_START,
            m.plan.immix_space.immix.blocks() == size as int / 32768,
            m.plan.immix_space.immix.pr.free@.len() == size as int / 32768,
            m.plan.immix_space.hooks is None,
            m.plan.los.los.common.start == large_object_space_start(size as int),
            m.plan.los.los.pages() == size as int / 4096,
            m.plan.los.los.treadmill.all() == Seq::<crate::util::address::ObjectReference>::empty(),
            m.options == builder.options,
            m.context == (AllocatorContext {
                max_heap_pages: (size as int / 4096) as usize,
                out_of_memory: false,
            }),
            !m.collection_enabled,
            !m.initialized,
    {
        let immix_space = LXRSpace::new(
            PlanCreateSpaceArgs {
                name: "immix",
                start: Address(IMMIX_SPACE_START),
                blocks: size / 32768,
                needs_log_bit: true,
                workers: 1,
            },
            ImmixSpaceArgs { never_move_objects: false },
        );
        let los_start: usize = if size <= LARGE_OBJECT_SPACE_START - IMMIX_SPACE_START {
            LARGE_OBJECT_SPACE_START
        } else {
            IMMIX_SPACE_START + (size + 4095) / 4096 * 4096
        };
        let los = LXRLargeObjectSpace::new(
            LargeObjectSpaceArgs {
                name: "los",
                start: Address(los_start),
                pages: size / 4096,
                needs_log_bit: true,
            },
            false,
            true,
        );
        MMTK {
            plan: LXR { immix_space, los },
            options: builder.options,
            context: AllocatorContext { max_heap_pages: size / 4096, out_of_memory: false },
            collection_enabled: false,
            initialized: false,
        }
    }
}

} // verus!
