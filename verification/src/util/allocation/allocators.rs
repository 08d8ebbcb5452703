//! The allocators of a mutator, and which of them serves which kind of request.
use crate::util::allocation::allocator::AllocatorContext;
use crate::util::allocation::immix_allocator::ImmixAllocator;
use crate::util::allocation::large_object_allocator::{LargeObjectAllocator, SpaceKind};
use crate::vm::binding::VMBinding;
use vstd::prelude::*;

verus! {

/// What an object is allocated for.
#[derive(Copy, Clone, PartialEq, Eq, Structural, Debug)]
pub enum AllocationSemantics {
    Default,
    Immortal,
    Los,
    Code,
    ReadOnly,
    LargeCode,
    NonMoving,
}

impl AllocationSemantics {
    /// The key of the kind of request in a mapping.
    pub open spec fn key(self) -> u8 {
        match self {
            AllocationSemantics::Default => 0,
            AllocationSemantics::Immortal => 1,
            AllocationSemantics::Los => 2,
            AllocationSemantics::Code => 3,
            AllocationSemantics::ReadOnly => 4,
            AllocationSemantics::LargeCode => 5,
            AllocationSemantics::NonMoving => 6,
        }
    }

    pub fn to_key(self) -> (k: u8)
        ensures
            k == self.key(),
    {
        match self {
            AllocationSemantics::Default => 0,
            AllocationSemantics::Immortal => 1,
            AllocationSemantics::Los => 2,
            AllocationSemantics::Code => 3,
            AllocationSemantics::ReadOnly => 4,
            AllocationSemantics::LargeCode => 5,
            AllocationSemantics::NonMoving => 6,
        }
    }
}

/// One of the allocators of a mutator, by its kind and its number among those of that kind.
#[derive(Copy, Clone, PartialEq, Eq, Structural, Debug)]
pub enum AllocatorSelector {
    BumpPointer(u8),
    LargeObject(u8),
    Malloc(u8),
    Immix(u8),
    MarkCompact(u8),
    FreeList(u8),
    /// No allocator.
    Unassigned,
}

impl Default for AllocatorSelector {
    fn default() -> (s: Self)
        ensures
            s == AllocatorSelector::Unassigned,
    {
        AllocatorSelector::Unassigned
    }
}

/// Which allocator serves which kind of request.
#[verifier::external_body]
pub struct AllocatorMapping {
    map: enum_map::EnumMap<u8, AllocatorSelector>,
}

/// What a mapping holds: the selector for each key.
pub uninterp spec fn selectors(mapping: AllocatorMapping) -> Map<u8, AllocatorSelector>;

/// `EnumMap::default` of `enum_map`: every key has the default value, which is no allocator.
#[verifier::external_body]
fn empty_mapping() -> (mapping: AllocatorMapping)
    ensures
        forall|k: u8|
            selectors(mapping).contains_key(k) && #[trigger] selectors(mapping)[k]
                == AllocatorSelector::Unassigned,
{
    AllocatorMapping { map: enum_map::EnumMap::default() }
}

/// Indexing of an `EnumMap` of `enum_map`: the value of the key `k`.
#[verifier::external_body]
fn selector_at(mapping: &AllocatorMapping, k: u8) -> (s: AllocatorSelector)
    ensures
        s == selectors(*mapping)[k],
{
    mapping.map[k]
}

/// Mutable indexing of an `EnumMap` of `enum_map`, with an assignment to what it gives: the key `k`
/// has the value `s`, and every other key the one it had.
#[verifier::external_body]
fn set_selector_at(mapping: &mut AllocatorMapping, k: u8, s: AllocatorSelector)
    ensures
        selectors(*final(mapping)) == selectors(*old(mapping)).insert(k, s),
{
    mapping.map[k] = s;
}

impl AllocatorMapping {
    /// The allocator for requests of the kind `semantics`.
    pub open spec fn selector(&self, semantics: AllocationSemantics) -> AllocatorSelector {
        selectors(*self)[semantics.key()]
    }

    pub fn get(&self, semantics: AllocationSemantics) -> (s: AllocatorSelector)
        ensures
            s == self.selector(semantics),
    {
        selector_at(self, semantics.to_key())
    }

    pub fn set(&mut self, semantics: AllocationSemantics, selector: AllocatorSelector)
        ensures
            selectors(*final(self)) == selectors(*old(self)).insert(semantics.key(), selector),
            forall|other: AllocationSemantics| #[trigger]
                final(self).selector(other) == (if other == semantics {
                    selector
                } else {
                    old(self).selector(other)
                }),
    {
        set_selector_at(self, semantics.to_key(), selector);
    }
}

/// A mapping for a plan that sets up all of its allocators itself: nothing is assigned.
pub fn create_allocator_mapping() -> (mapping: AllocatorMapping)
    ensures
        forall|s: AllocationSemantics| #[trigger]
            mapping.selector(s) == AllocatorSelector::Unassigned,
{
    empty_mapping()
}

/// The allocators of a mutator.
pub struct Allocators<VM: VMBinding> {
    pub immix: Option<ImmixAllocator<VM>>,
    pub large_object: Option<LargeObjectAllocator<VM>>,
}

/// Whether the allocators named in `mapping` can be set up.
pub open spec fn mappable(mapping: Seq<(AllocatorSelector, SpaceKind)>) -> bool {
    forall|i: int|
        0 <= i < mapping.len() ==> {
            ||| #[trigger] mapping[i] == (AllocatorSelector::Immix(0), SpaceKind::Immix)
            ||| mapping[i] == (AllocatorSelector::LargeObject(0), SpaceKind::LargeObject)
            ||| mapping[i] == (AllocatorSelector::LargeObject(0), SpaceKind::LXRLargeObject)
        }
}

/// Whether `mapping` names the allocator `selector`.
pub open spec fn maps(
    mapping: Seq<(AllocatorSelector, SpaceKind)>,
    selector: AllocatorSelector,
) -> bool {
    exists|i: int| 0 <= i < mapping.len() && (#[trigger] mapping[i]).0 == selector
}

impl<VM: VMBinding> Allocators<VM> {
    /// The allocators named in `mapping`, for the thread `tls`. A large object allocator is bound
    /// to the last space named for it.
    pub fn new(
        tls: usize,
        context: AllocatorContext,
        mapping: &Vec<(AllocatorSelector, SpaceKind)>,
    ) -> (a: Self)
        requires
            mappable(mapping@),
        ensures
            a.immix is Some <==> maps(mapping@, AllocatorSelector::Immix(0)),
            a.immix matches Some(x) ==> {
                &&& x.tls == tls
                &&& x.context == context
                &&& x.cursor@ == 0
                &&& x.limit@ == 0
                &&& !x.copy
            },
            a.large_object is Some <==> maps(mapping@, AllocatorSelector::LargeObject(0)),
            a.large_object matches Some(x) ==> x.tls == tls && x.context == context
                && exists|i: int|
                {
                    &&& 0 <= i < mapping@.len()
                    &&& #[trigger] mapping@[i] == (AllocatorSelector::LargeObject(0), x.space)
                    &&& forall|j: int|
                        i < j < mapping@.len() ==> (#[trigger] mapping@[j]).0
                            != AllocatorSelector::LargeObject(0)
                },
    {
        let mut immix: Option<ImmixAllocator<VM>> = None;
        let mut large_object: Option<LargeObjectAllocator<VM>> = None;
        let mut i: usize = 0;
        while i < mapping.len()
            invariant
                i <= mapping@.len(),
                mappable(mapping@),
                immix is Some <==> exists|j: int|
                    0 <= j < i && (#[trigger] mapping@[j]).0 == AllocatorSelector::Immix(0),
                immix matches Some(x) ==> {
                    &&& x.tls == tls
                    &&& x.context == context
                    &&& x.cursor@ == 0
                    &&& x.limit@ == 0
                    &&& !x.copy
                },
                large_object is Some <==> exists|j: int|
                    0 <= j < i && (#[trigger] mapping@[j]).0 == AllocatorSelector::LargeObject(0),
                large_object matches Some(x) ==> x.tls == tls && x.context == context
                    && exists|k: int|
                    {
                        &&& 0 <= k < i
                        &&& #[trigger] mapping@[k] == (AllocatorSelector::LargeObject(0), x.space)
                        &&& forall|j: int|
                            k < j < i ==> (#[trigger] mapping@[j]).0
                                != AllocatorSelector::LargeObject(0)
                    },
            decreases mapping@.len() - i,
        {
            let (selector, space) = mapping[i];
            assert(mapping@[i as int] == (selector, space));
            match selector {
                AllocatorSelector::Immix(_) => {
                    immix = Some(ImmixAllocator::new(tls, context, false));
                },
                AllocatorSelector::LargeObject(_) => {
                    large_object = Some(LargeObjectAllocator::new(tls, space, context));
                },
                _ => {},
            }
            i += 1;
        }
        Allocators { immix, large_object }
    }
}

} // verus!
