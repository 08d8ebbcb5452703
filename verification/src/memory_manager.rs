//! What a virtual machine calls.
use crate::mmtk::MMTK;
use crate::plan::lxr::global::LXR;
use crate::plan::lxr::mutator::{create_lxr_mutator, lxr_mapping, new_lxr_mutator, Mutator};
use crate::policy::lxr::immixspace::ImmixHooks;
use crate::policy::lxr::largeobjectspace::LXRLargeObjectSpace;
use crate::util::address::Address;
use crate::util::allocation::allocator::{alignable, maximum_aligned_size};
use crate::util::allocation::allocators::{AllocationSemantics, AllocatorSelector, Allocators};
use crate::util::allocation::immix_allocator::immix_allocated;
use crate::util::allocation::large_object_allocator::{
    large_object_allocated, object_pages, oom_noted, LargeObjectAllocator,
};
use crate::vm::binding::VMBinding;
use vstd::prelude::*;

verus! {

/// Starts the workers, after which collections may be triggered.
pub fn initialize_collection<H>(mmtk: &mut MMTK<H>)
    requires
        !old(mmtk).initialized,
    ensures
        *final(mmtk) == (MMTK { initialized: true, collection_enabled: true, ..*old(mmtk) }),
{
    mmtk.initialized = true;
    mmtk.collection_enabled = true;
}

/// Keeps collections from being triggered.
pub fn disable_collection<H>(mmtk: &mut MMTK<H>)
    ensures
        *final(mmtk) == (MMTK { collection_enabled: false, ..*old(mmtk) }),
{
    mmtk.collection_enabled = false;
}

/// A mutator for the thread `tls`.
pub fn bind_mutator<VM: VMBinding, H>(mmtk: &MMTK<H>, tls: usize) -> (m: Box<Mutator<VM>>)
    ensures
        new_lxr_mutator(*m, tls, *mmtk),
{
    Box::new(create_lxr_mutator(tls, mmtk))
}

/// Whether `mutator` is a mutator of `plan` with its allocators in order.
pub open spec fn mutator_wf<VM: VMBinding, H>(mutator: Mutator<VM>, plan: LXR<H>) -> bool {
    &&& mutator.plan == plan.identity()
    &&& lxr_mapping(mutator.config.allocator_mapping)
    &&& mutator.allocators.immix matches Some(x) && x.wf(plan.immix_space)
    &&& mutator.allocators.large_object is Some
}

/// Allocates `size` bytes so that the address `offset` bytes on is a multiple of `align`. Returns
/// the zero address if there is no room.
pub fn allocate<VM: VMBinding, H: ImmixHooks>(
    mutator: &mut Mutator<VM>,
    plan: &mut LXR<H>,
    size: usize,
    align: usize,
    offset: usize,
    semantics: AllocationSemantics,
) -> (a: Address)
    requires
        old(plan).wf(),
        mutator_wf(*old(mutator), *old(plan)),
        semantics == AllocationSemantics::Default || semantics == AllocationSemantics::Los,
        semantics == AllocationSemantics::Default ==> {
            &&& 0 < size
            &&& size + align <= 32768
            &&& old(plan).immix_space.immix.common.start > 0
            &&& old(plan).immix_space.immix.common.start
                + old(plan).immix_space.immix.blocks() * 32768 + VM::MAX_ALIGNMENT <= usize::MAX
        },
        alignable::<VM>(align as int),
        semantics == AllocationSemantics::Los ==> {
            &&& object_pages::<VM>(size as int, align as int) > 0
            &&& maximum_aligned_size::<VM>(size as int, align as int) <= usize::MAX
            &&& old(plan).los.los.common.start + old(plan).los.los.pages() * 4096 + align
                <= usize::MAX
        },
    ensures
        final(plan).wf(),
        mutator_wf(*final(mutator), *final(plan)),
        a@ != 0 ==> (a@ + offset) % align as int == 0,
        semantics == AllocationSemantics::Default ==> {
            &&& *final(plan) == (LXR { immix_space: final(plan).immix_space, ..*old(plan) })
            &&& *final(mutator) == (Mutator {
                allocators: Allocators {
                    immix: final(mutator).allocators.immix,
                    ..old(mutator).allocators
                },
                ..*old(mutator)
            })
            &&& immix_allocated(
                old(mutator).allocators.immix->0,
                old(plan).immix_space,
                size as int,
                align as int,
                offset as int,
                final(mutator).allocators.immix->0,
                final(plan).immix_space,
                a,
            )
        },
        semantics == AllocationSemantics::Los ==> {
            let before = old(mutator).allocators.large_object->0;
            let after = final(mutator).allocators.large_object->0;
            &&& *final(plan) == (LXR {
                los: LXRLargeObjectSpace { los: final(plan).los.los, ..old(plan).los },
                ..*old(plan)
            })
            &&& *final(mutator) == (Mutator {
                allocators: Allocators {
                    large_object: final(mutator).allocators.large_object,
                    ..old(mutator).allocators
                },
                ..*old(mutator)
            })
            &&& after == (LargeObjectAllocator { context: after.context, ..before })
            &&& oom_noted(
                before.context,
                object_pages::<VM>(size as int, align as int),
                after.context,
            )
            &&& large_object_allocated::<VM>(
                old(plan).los.los,
                before.context.max_heap_pages as int,
                size as int,
                align as int,
                offset as int,
                final(plan).los.los,
                a,
            )
        },
{
    match mutator.config.allocator_mapping.get(semantics) {
        AllocatorSelector::Immix(_) => {
            match &mut mutator.allocators.immix {
                Some(immix) => immix.allocate(&mut plan.immix_space, size, align, offset),
                None => Address::zero(),
            }
        },
        _ => {
            match &mut mutator.allocators.large_object {
                Some(los) => los.allocate(&mut plan.los, size, align, offset),
                None => Address::zero(),
            }
        },
    }
}

} // verus!
