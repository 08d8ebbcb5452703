//! The mutators of the plan.
use crate::mmtk::MMTK;
use crate::plan::lxr::global::PlanHandle;
use crate::util::address::Address;
use crate::util::allocation::allocators::{
    create_allocator_mapping, AllocationSemantics, AllocatorMapping, AllocatorSelector, Allocators,
};
use crate::util::allocation::immix_allocator::ImmixAllocator;
use crate::util::allocation::large_object_allocator::SpaceKind;
use crate::vm::binding::VMBinding;
use vstd::prelude::*;

verus! {

/// How stores of a mutator are watched.
#[derive(Copy, Clone, PartialEq, Eq, Structural, Debug)]
pub enum BarrierSelector {
    NoBarrier,
    ObjectBarrier,
    FieldBarrier,
}

/// A function of a plan on its mutators.
#[derive(Copy, Clone, PartialEq, Eq, Structural, Debug)]
pub enum MutatorFunction {
    /// `lxr_mutator_prepare`.
    LXRPrepare,
    /// `lxr_mutator_release`.
    LXRRelease,
}

impl MutatorFunction {
    /// Calls the function, on the thread `tls` of a worker.
    pub fn call<VM: VMBinding>(self, mutator: &mut Mutator<VM>, tls: usize)
        requires
            old(mutator).default_is_immix(),
        ensures
            immix_allocator_reset(*old(mutator), *final(mutator)),
    {
        match self {
            MutatorFunction::LXRPrepare => lxr_mutator_prepare(mutator, tls),
            MutatorFunction::LXRRelease => lxr_mutator_release(mutator, tls),
        }
    }
}

/// How a mutator allocates, and what is done with it in a collection.
pub struct MutatorConfig {
    pub allocator_mapping: AllocatorMapping,
    /// The space that each allocator takes memory from.
    pub space_mapping: Vec<(AllocatorSelector, SpaceKind)>,
    /// What prepares the mutator for a collection.
    pub prepare_func: MutatorFunction,
    /// What lets the mutator go on after a collection.
    pub release_func: MutatorFunction,
}

/// A thread that allocates and changes objects.
pub struct Mutator<VM: VMBinding> {
    pub allocators: Allocators<VM>,
    pub barrier: BarrierSelector,
    pub mutator_tls: usize,
    pub config: MutatorConfig,
    /// The plan that the mutator belongs to.
    pub plan: PlanHandle,
}

/// Whether `mapping` is that of the plan: ordinary objects go to the immix allocator, large ones to
/// the large object allocator, and no other kind of request is served.
pub open spec fn lxr_mapping(mapping: AllocatorMapping) -> bool {
    forall|s: AllocationSemantics| #[trigger]
        mapping.selector(s) == (match s {
            AllocationSemantics::Default => AllocatorSelector::Immix(0),
            AllocationSemantics::Los => AllocatorSelector::LargeObject(0),
            _ => AllocatorSelector::Unassigned,
        })
}

/// The mapping of the plan.
pub fn allocator_mapping() -> (mapping: AllocatorMapping)
    ensures
        lxr_mapping(mapping),
{
    let mut map = create_allocator_mapping();
    map.set(AllocationSemantics::Default, AllocatorSelector::Immix(0));
    map.set(AllocationSemantics::Los, AllocatorSelector::LargeObject(0));
    map
}

impl<VM: VMBinding> Mutator<VM> {
    /// Whether ordinary objects go to the immix allocator.
    pub open spec fn default_is_immix(&self) -> bool {
        &&& self.config.allocator_mapping.selector(AllocationSemantics::Default) is Immix
        &&& self.allocators.immix is Some
    }
}

/// Whether `after` is `before` with the immix allocator having let go of its memory.
pub open spec fn immix_allocator_reset<VM: VMBinding>(
    before: Mutator<VM>,
    after: Mutator<VM>,
) -> bool {
    &&& after == (Mutator {
        allocators: Allocators { immix: after.allocators.immix, ..before.allocators },
        ..before
    })
    &&& after.allocators.immix == Some(
        ImmixAllocator {
            cursor: Address(0),
            limit: Address(0),
            ..before.allocators.immix->0
        },
    )
}

/// Prepares a mutator for a collection: its immix allocator lets go of its memory.
pub fn lxr_mutator_prepare<VM: VMBinding>(mutator: &mut Mutator<VM>, _tls: usize)
    requires
        old(mutator).default_is_immix(),
    ensures
        immix_allocator_reset(*old(mutator), *final(mutator)),
{
    match mutator.config.allocator_mapping.get(AllocationSemantics::Default) {
        AllocatorSelector::Immix(_) => {
            match &mut mutator.allocators.immix {
                Some(immix_allocator) => immix_allocator.reset(),
                None => {},
            }
        },
        _ => {},
    }
}

/// Lets a mutator go on after a collection: its immix allocator lets go of its memory.
pub fn lxr_mutator_release<VM: VMBinding>(mutator: &mut Mutator<VM>, _tls: usize)
    requires
        old(mutator).default_is_immix(),
    ensures
        immix_allocator_reset(*old(mutator), *final(mutator)),
{
    match mutator.config.allocator_mapping.get(AllocationSemantics::Default) {
        AllocatorSelector::Immix(_) => {
            match &mut mutator.allocators.immix {
                Some(immix_allocator) => immix_allocator.reset(),
                None => {},
            }
        },
        _ => {},
    }
}

/// Whether `mutator` is a new mutator of the thread `tls` for the plan of `mmtk`.
pub open spec fn new_lxr_mutator<VM: VMBinding, H>(
    mutator: Mutator<VM>,
    tls: usize,
    mmtk: MMTK<H>,
) -> bool {
    &&& mutator.mutator_tls == tls
    &&& mutator.plan == mmtk.plan.identity()
    &&& mutator.config.prepare_func == MutatorFunction::LXRPrepare
    &&& mutator.config.release_func == MutatorFunction::LXRRelease
    &&& mutator.barrier == BarrierSelector::FieldBarrier
    &&& lxr_mapping(mutator.config.allocator_mapping)
    &&& mutator.config.space_mapping@ == seq![
        (AllocatorSelector::Immix(0), SpaceKind::Immix),
        (AllocatorSelector::LargeObject(0), SpaceKind::LXRLargeObject),
    ]
    &&& mutator.allocators.immix matches Some(x) && x.tls == tls && x.context == mmtk.context
        && x.cursor@ == 0 && x.limit@ == 0 && !x.copy
    &&& mutator.allocators.large_object matches Some(x) && x.tls == tls && x.context
        == mmtk.context && x.space == SpaceKind::LXRLargeObject
}

/// A mutator for the thread `mutator_tls`.
pub fn create_lxr_mutator<VM: VMBinding, H>(mutator_tls: usize, mmtk: &MMTK<H>) -> (m: Mutator<VM>)
    ensures
        new_lxr_mutator(m, mutator_tls, *mmtk),
{
    let space_mapping: Vec<(AllocatorSelector, SpaceKind)> = vec![
        (AllocatorSelector::Immix(0), SpaceKind::Immix),
        (AllocatorSelector::LargeObject(0), SpaceKind::LXRLargeObject),
    ];
    assert(space_mapping@[0].0 == AllocatorSelector::Immix(0));
    assert(space_mapping@[1].0 == AllocatorSelector::LargeObject(0));
    let allocators = Allocators::<VM>::new(mutator_tls, mmtk.context, &space_mapping);
    let config = MutatorConfig {
        allocator_mapping: allocator_mapping(),
        space_mapping,
        prepare_func: MutatorFunction::LXRPrepare,
        release_func: MutatorFunction::LXRRelease,
    };
    Mutator {
        allocators,
        barrier: BarrierSelector::FieldBarrier,
        mutator_tls,
        config,
        plan: mmtk.plan.handle(),
    }
}

} // verus!
