//! What holds of the memory that is allocated.
use crate::memory_manager::{allocate, bind_mutator, disable_collection, initialize_collection};
use crate::mmtk::{MMTKBuilder, MMTK};
use crate::plan::lxr::global::{PlanHandle, LXR};
use crate::plan::lxr::mutator::{
    allocator_mapping, create_lxr_mutator, lxr_mutator_prepare, lxr_mutator_release,
    BarrierSelector, Mutator, MutatorFunction,
};
use crate::policy::largeobjectspace::{run_free, LargeObjectSpace};
use crate::policy::lxr::immixspace::{ImmixHooks, LXRSpace};
use crate::policy::lxr::largeobjectspace::LXRLargeObjectSpace;
use crate::util::address::Address;
use crate::util::allocation::allocator::{
    align_allocation, alignable, aligned, get_maximum_aligned_size, lemma_aligned,
    maximum_aligned_size, AllocatorContext,
};
use crate::util::allocation::allocators::{
    create_allocator_mapping, mappable, AllocationSemantics, AllocatorMapping, AllocatorSelector,
    Allocators,
};
use crate::util::allocation::immix_allocator::{immix_allocated, ImmixAllocator};
use crate::util::allocation::large_object_allocator::{
    large_object_allocated, object_pages, pages_requested, LargeObjectAllocator, SpaceKind,
};
use crate::util::conversions::bytes_to_pages_up;
use crate::util::options::GCTriggerSelector;
use crate::vm::binding::VMBinding;
use vstd::arithmetic::div_mod::{lemma_fundamental_div_mod, lemma_mod_multiples_basic};
use vstd::prelude::*;

verus! {

/// Two addresses that lie as many bytes before a multiple of `align` are `align` bytes apart at least.
proof fn lemma_multiples_lie_apart(x: int, y: int, align: int)
    requires
        align > 0,
        x % align == 0,
        y % align == 0,
        x < y,
    ensures
        x + align <= y,
{
    lemma_fundamental_div_mod(x, align);
    lemma_fundamental_div_mod(y, align);
    let u = x / align;
    let v = y / align;
    assert(u < v) by (nonlinear_arith)
        requires
            align > 0,
            x == align * u,
            y == align * v,
            x < y,
    ;
    assert(align * u + align <= align * v) by (nonlinear_arith)
        requires
            align > 0,
            u < v,
    ;
}

/// No address from the region on is aligned as asked for and comes before the one that is found.
proof fn lemma_aligned_is_least(region: int, align: int, offset: int, x: int)
    requires
        align > 0,
        region <= x,
        (x + offset) % align == 0,
    ensures
        aligned(region, align, offset) <= x,
{
    lemma_aligned(region, align, offset);
    let a = aligned(region, align, offset);
    if x < a {
        lemma_multiples_lie_apart(x + offset, a + offset, align);
    }
}

/// The address found is aligned as asked for, is not before the region, and comes no later than any such
/// address. One that is aligned already is found itself.
pub proof fn law_alignment_finds_the_first_address<VM: VMBinding>(
    region: Address,
    align: usize,
    offset: usize,
    a: Address,
    x: int,
)
    requires
        alignable::<VM>(align as int),
        call_ensures(align_allocation::<VM>, (region, align, offset), a),
    ensures
        (a@ + offset) % align as int == 0,
        region@ <= a@,
        region@ <= x && (x + offset) % align as int == 0 ==> a@ <= x,
        (region@ + offset) % align as int == 0 ==> a == region,
{
    if region@ <= x && (x + offset) % align as int == 0 {
        lemma_aligned_is_least(region@, align as int, offset as int, x);
    }
    if (region@ + offset) % align as int == 0 {
        lemma_aligned_is_least(region@, align as int, offset as int, region@);
    }
}

/// The most that an object can need is enough wherever the memory for it begins, and no less is: where the
/// memory begins as badly as it can, all of it is needed.
pub proof fn law_maximum_size_is_enough_and_no_more<VM: VMBinding>(
    size: usize,
    align: usize,
    bytes: usize,
    region: Address,
    offset: usize,
    a: Address,
)
    requires
        alignable::<VM>(align as int),
        maximum_aligned_size::<VM>(size as int, align as int) <= usize::MAX,
        call_ensures(get_maximum_aligned_size::<VM>, (size, align), bytes),
        call_ensures(align_allocation::<VM>, (region, align, offset), a),
        region@ % VM::MIN_ALIGNMENT as int == 0,
        offset % VM::MIN_ALIGNMENT == 0,
    ensures
        a@ + size <= region@ + bytes,
        bytes >= size,
        align == VM::MIN_ALIGNMENT ==> bytes == size,
        (region@ + offset) % align as int == VM::MIN_ALIGNMENT && align > VM::MIN_ALIGNMENT ==> a@ + size
            == region@ + bytes,
{
    let n = region@ + offset;
    let d = align as int;
    if n % d == VM::MIN_ALIGNMENT && d > VM::MIN_ALIGNMENT {
        let x = region@ + d - VM::MIN_ALIGNMENT;
        lemma_fundamental_div_mod(n, d);
        let u = n / d;
        assert(x + offset == d * (u + 1)) by (nonlinear_arith)
            requires
                n == d * u + VM::MIN_ALIGNMENT,
                x + offset == n + d - VM::MIN_ALIGNMENT,
        ;
        lemma_mod_multiples_basic(u + 1, d);
        assert((x + offset) % d == 0) by {
            assert(d * (u + 1) == (u + 1) * d) by (nonlinear_arith);
        }
        lemma_aligned_is_least(region@, d, offset as int, x);
        if a@ < x {
            lemma_multiples_lie_apart(a@ + offset, x + offset, d);
        }
    }
}

/// So many pages hold the bytes, and one less does not.
pub proof fn law_pages_hold_the_bytes(bytes: usize, pages: usize)
    requires
        call_ensures(bytes_to_pages_up, (bytes,), pages),
    ensures
        pages * 4096 >= bytes,
        bytes > 0 ==> pages > 0 && (pages - 1) * 4096 < bytes,
        bytes == 0 ==> pages == 0,
{
}

/// A request is hopeless exactly if it is for more pages than the heap can ever have. The virtual machine
/// has been told once one was.
pub proof fn law_hopeless_requests_are_told(
    context: &mut AllocatorContext,
    pages: usize,
    hopeless: bool,
)
    requires
        call_ensures(AllocatorContext::handle_obvious_oom_request, (context, pages), hopeless),
    ensures
        hopeless == (pages > old(context).max_heap_pages),
        hopeless ==> final(context).out_of_memory,
        !hopeless ==> *final(context) == *old(context),
        final(context).max_heap_pages == old(context).max_heap_pages,
{
}

/// What is true of an object that was allocated at `a`, of where the memory at hand begins and ends, and of
/// the space: it is aligned; it lies in the memory at hand, as early as it can, if it fits there; otherwise
/// it lies in the free block that comes next, and if there is none, nothing is allocated and nothing
/// changes.
pub open spec fn well_placed<VM: VMBinding, H>(
    before: ImmixAllocator<VM>,
    space: LXRSpace<H>,
    size: int,
    align: int,
    offset: int,
    after: ImmixAllocator<VM>,
    space_after: LXRSpace<H>,
    a: int,
    x: int,
) -> bool {
    let blocks = space.immix.pr.free@;
    let here = before.cursor@ <= a && a + size <= before.limit@;
    &&& a != 0 ==> {
        &&& (a + offset) % align == 0
        &&& after.cursor@ == a + size
        &&& after.cursor@ <= after.limit@
    }
    &&& before.cursor@ <= x && x + size <= before.limit@ && (x + offset) % align == 0 ==> {
        &&& here
        &&& a <= x
        &&& after.limit == before.limit
        &&& space_after == space
    }
    &&& a != 0 && !(here && after.limit == before.limit && space_after == space) ==> {
        &&& blocks.len() > 0
        &&& blocks.last()@ <= a
        &&& a + size <= blocks.last()@ + 32768
        &&& after.limit@ == blocks.last()@ + 32768
        &&& space_after.immix.pr.free@ == blocks.drop_last()
        &&& space_after.rc == space.rc
        &&& space_after.immix.mark == space.immix.mark
    }
    &&& a == 0 ==> {
        &&& blocks.len() == 0
        &&& after == before
        &&& space_after == space
    }
    &&& after.tls == before.tls
    &&& after.context == before.context
    &&& after.copy == before.copy
}

/// What holds of an object that was allocated.
#[verifier::spinoff_prover]
proof fn lemma_well_placed<VM: VMBinding, H: ImmixHooks>(
    before: ImmixAllocator<VM>,
    space: LXRSpace<H>,
    size: int,
    align: int,
    offset: int,
    after: ImmixAllocator<VM>,
    space_after: LXRSpace<H>,
    a: Address,
    x: int,
)
    requires
        space.wf(),
        before.wf(space),
        space.immix.common.start > 0,
        0 < size,
        0 < align,
        size + align <= 32768,
        0 <= offset,
        immix_allocated(before, space, size, align, offset, after, space_after, a),
    ensures
        well_placed(before, space, size, align, offset, after, space_after, a@, x),
{
    lemma_aligned(before.cursor@, align, offset);
    if before.cursor@ <= x && x + size <= before.limit@ && (x + offset) % align == 0 {
        lemma_aligned_is_least(before.cursor@, align, offset, x);
    }
    if space.immix.pr.free@.len() > 0 {
        lemma_aligned(space.immix.pr.free@.last()@, align, offset);
    }
}

/// Ordinary objects: what is allocated is aligned as asked for, lies in the memory at hand if it fits there
/// at all, and in a clean block otherwise; no memory is handed out only where neither is possible.
#[verifier::spinoff_prover]
pub proof fn law_objects_are_placed_where_they_fit<VM: VMBinding, H: ImmixHooks>(
    allocator: &mut ImmixAllocator<VM>,
    space: &mut LXRSpace<H>,
    size: usize,
    align: usize,
    offset: usize,
    a: Address,
    x: int,
)
    requires
        space.wf(),
        allocator.wf(*space),
        space.immix.common.start > 0,
        0 < size,
        size + align <= 32768,
        alignable::<VM>(align as int),
        call_ensures(
            ImmixAllocator::<VM>::allocate::<H>,
            (allocator, space, size, align, offset),
            a,
        ),
    ensures
        well_placed(
            *old(allocator),
            *old(space),
            size as int,
            align as int,
            offset as int,
            *final(allocator),
            *final(space),
            a@,
            x,
        ),
{
    lemma_well_placed(
        *allocator,
        *space,
        size as int,
        align as int,
        offset as int,
        *final(allocator),
        *final(space),
        a,
        x,
    );
}

/// Objects allocated one after the other from the same memory do not overlap.
#[verifier::spinoff_prover]
pub proof fn law_objects_lie_apart<VM: VMBinding, H: ImmixHooks>(
    first: &mut ImmixAllocator<VM>,
    space: &mut LXRSpace<H>,
    size: usize,
    align: usize,
    offset: usize,
    a: Address,
    second: &mut ImmixAllocator<VM>,
    later: &mut LXRSpace<H>,
    more: usize,
    more_align: usize,
    more_offset: usize,
    b: Address,
)
    requires
        space.wf(),
        first.wf(*space),
        alignable::<VM>(align as int),
        call_ensures(ImmixAllocator::<VM>::allocate::<H>, (first, space, size, align, offset), a),
        *second == *final(first),
        *later == *final(space),
        alignable::<VM>(more_align as int),
        call_ensures(
            ImmixAllocator::<VM>::allocate::<H>,
            (second, later, more, more_align, more_offset),
            b,
        ),
        a@ != 0,
        b@ != 0,
        final(second).limit == final(first).limit,
        *final(later) == *final(space),
    ensures
        a@ + size <= b@,
{
    lemma_aligned(second.cursor@, more_align as int, more_offset as int);
    if later.immix.pr.free@.len() > 0 {
        let free = later.immix.pr.free@;
        assert(free.drop_last().len() < free.len());
    }
}

/// An allocator that is new, or that has let go of its memory, has none at hand: what it allocates next comes
/// from a clean block.
#[verifier::spinoff_prover]
pub proof fn law_allocator_without_memory_takes_a_block<VM: VMBinding, H: ImmixHooks>(
    tls: usize,
    context: AllocatorContext,
    copy: bool,
    made: ImmixAllocator<VM>,
    resetting: &mut ImmixAllocator<VM>,
    allocator: &mut ImmixAllocator<VM>,
    space: &mut LXRSpace<H>,
    size: usize,
    align: usize,
    offset: usize,
    a: Address,
)
    requires
        call_ensures(ImmixAllocator::<VM>::new, (tls, context, copy), made),
        call_ensures(ImmixAllocator::<VM>::reset, (resetting,), ()),
        *allocator == made || *allocator == *final(resetting),
        space.wf(),
        space.immix.common.start > 0,
        0 < size,
        size + align <= 32768,
        alignable::<VM>(align as int),
        call_ensures(
            ImmixAllocator::<VM>::allocate::<H>,
            (allocator, space, size, align, offset),
            a,
        ),
    ensures
        made.tls == tls && made.context == context && made.copy == copy,
        final(resetting).tls == old(resetting).tls,
        final(resetting).context == old(resetting).context,
        final(resetting).copy == old(resetting).copy,
        a@ == 0 <==> old(space).immix.pr.free@.len() == 0,
        a@ != 0 ==> {
            let block = old(space).immix.pr.free@.last();
            &&& block@ <= a@
            &&& a@ + size <= block@ + 32768
            &&& final(space).immix.pr.free@ == old(space).immix.pr.free@.drop_last()
        },
{
    lemma_well_placed(
        *allocator,
        *space,
        size as int,
        align as int,
        offset as int,
        *final(allocator),
        *final(space),
        a,
        0,
    );
    lemma_aligned(0, align as int, offset as int);
}

/// What is true of a large object allocated at `a` on `need` pages, which are as few as can hold it wherever
/// it has to be placed on them: it is aligned, all its pages were free and are not any more, they come as
/// early as they can, and no other page changes. If there is no room, nothing changes.
pub open spec fn well_paged(
    before: LargeObjectSpace,
    need: int,
    align: int,
    offset: int,
    after: LargeObjectSpace,
    a: int,
    p: int,
    q: int,
) -> bool {
    let free_at = 0 <= q && q + need <= before.used@.len() && forall|i: int|
        q <= i < q + need ==> !#[trigger] before.used@[i];
    &&& free_at ==> a != 0
    &&& a == 0 ==> after == before
    &&& a != 0 ==> exists|first: int|
        {
            &&& 0 <= first
            &&& first + need <= before.used@.len()
            &&& free_at ==> first <= q
            &&& before.common.start + first * 4096 <= a < before.common.start + first * 4096 + align
            &&& first <= p < first + need ==> !before.used@[p] && after.used@[p]
            &&& 0 <= p < before.used@.len() && !(first <= p < first + need) ==> after.used@[p]
                == before.used@[p]
            &&& #[trigger] after.lengths@[first] == need
        }
    &&& a != 0 ==> (a + offset) % align == 0
    &&& after.treadmill == before.treadmill
    &&& after.mark_nursery == before.mark_nursery
    &&& after.common == before.common
}

/// What holds of a large object that was allocated.
#[verifier::spinoff_prover]
proof fn lemma_well_paged<VM: VMBinding>(
    before: LargeObjectSpace,
    max_heap_pages: int,
    size: int,
    align: int,
    offset: int,
    after: LargeObjectSpace,
    a: Address,
    need: int,
    p: int,
    q: int,
)
    requires
        before.wf(),
        0 < align,
        0 <= offset,
        need == object_pages::<VM>(size, align),
        0 < need <= max_heap_pages,
        large_object_allocated::<VM>(before, max_heap_pages, size, align, offset, after, a),
    ensures
        well_paged(before, need, align, offset, after, a@, p, q),
{
    let start = choose|start: Address|
        {
            &&& #[trigger] pages_requested(before, need, max_heap_pages, after, start)
            &&& start@ == 0 ==> a@ == 0
            &&& start@ != 0 ==> {
                &&& a@ == aligned(start@, align, offset)
                &&& (a@ + offset) % align == 0
                &&& start@ <= a@
                &&& 4096int % VM::MIN_ALIGNMENT as int == 0 && offset % VM::MIN_ALIGNMENT as int
                    == 0 ==> a@ + size <= start@ + need * 4096
            }
        };
    let free_at = 0 <= q && q + need <= before.used@.len() && forall|i: int|
        q <= i < q + need ==> !#[trigger] before.used@[i];
    if free_at {
        assert(run_free(before.used@, q, need));
    }
    if start@ != 0 {
        lemma_aligned(start@, align, offset);
        let first = before.page(start@);
        assert(run_free(before.used@, first, need));
        assert(after.lengths@[first] == need);
    }
}

/// Large objects: where the request is not hopeless, the object lies on pages of its own that were free, as
/// few as can hold it. A hopeless request changes nothing but that it is told.
#[verifier::spinoff_prover]
pub proof fn law_large_objects_are_placed_on_free_pages<VM: VMBinding>(
    allocator: &mut LargeObjectAllocator<VM>,
    space: &mut LXRLargeObjectSpace,
    size: usize,
    align: usize,
    offset: usize,
    a: Address,
    need: int,
    p: int,
    q: int,
)
    requires
        space.wf(),
        alignable::<VM>(align as int),
        need > 0,
        (need - 1) * 4096 < size + align - VM::MIN_ALIGNMENT <= need * 4096,
        call_ensures(
            LargeObjectAllocator::<VM>::allocate::<LXRLargeObjectSpace>,
            (allocator, space, size, align, offset),
            a,
        ),
    ensures
        need > old(allocator).context.max_heap_pages ==> a@ == 0 && final(space).los == old(space).los && final(allocator).context.out_of_memory,
        need <= old(allocator).context.max_heap_pages ==> {
            &&& well_paged(
                old(space).los,
                need,
                align as int,
                offset as int,
                final(space).los,
                a@,
                p,
                q,
            )
            &&& final(allocator).context == old(allocator).context
        },
        final(allocator).context.max_heap_pages == old(allocator).context.max_heap_pages,
        final(allocator).tls == old(allocator).tls,
        final(allocator).space == old(allocator).space,
        final(space).rc == old(space).rc,
{
    assert(need == object_pages::<VM>(size as int, align as int));
    let max = allocator.context.max_heap_pages as int;
    if need <= max {
        lemma_well_paged::<VM>(
            space.los,
            max,
            size as int,
            align as int,
            offset as int,
            final(space).los,
            a,
            need,
            p,
            q,
        );
    }
}

/// A large object with all its bytes lies on the pages it was given, where these begin at a multiple of the
/// least alignment and so does the offset.
#[verifier::spinoff_prover]
pub proof fn law_large_object_has_room<VM: VMBinding>(
    allocator: &mut LargeObjectAllocator<VM>,
    space: &mut LXRLargeObjectSpace,
    size: usize,
    align: usize,
    offset: usize,
    a: Address,
    b: int,
)
    requires
        space.wf(),
        alignable::<VM>(align as int),
        4096int % VM::MIN_ALIGNMENT as int == 0,
        offset % VM::MIN_ALIGNMENT == 0,
        call_ensures(
            LargeObjectAllocator::<VM>::allocate::<LXRLargeObjectSpace>,
            (allocator, space, size, align, offset),
            a,
        ),
        a@ != 0,
        a@ <= b < a@ + size,
    ensures
        ({
            let p = (b - old(space).los.common.start) / 4096;
            &&& 0 <= p < old(space).los.used@.len()
            &&& !old(space).los.used@[p]
            &&& final(space).los.used@[p]
        }),
{
    let before = space.los;
    let max = allocator.context.max_heap_pages as int;
    let need = object_pages::<VM>(size as int, align as int);
    let start = choose|start: Address|
        {
            &&& #[trigger] pages_requested(before, need, max, final(space).los, start)
            &&& start@ == 0 ==> a@ == 0
            &&& start@ != 0 ==> {
                &&& a@ == aligned(start@, align as int, offset as int)
                &&& (a@ + offset) % align as int == 0
                &&& start@ <= a@
                &&& 4096int % VM::MIN_ALIGNMENT as int == 0 && offset as int
                    % VM::MIN_ALIGNMENT as int == 0 ==> a@ + size <= start@ + need * 4096
            }
        };
    let first = before.page(start@);
    assert(run_free(before.used@, first, need));
    let p = (b - before.common.start) / 4096;
    assert(first <= p < first + need);
}

/// Where the pages for a large object are taken, they are at the first place with as many free pages as the
/// object can need, or nowhere.
#[verifier::spinoff_prover]
pub proof fn law_pages_for_a_large_object<VM: VMBinding>(
    allocator: &mut LargeObjectAllocator<VM>,
    space: &mut LXRLargeObjectSpace,
    size: usize,
    align: usize,
    offset: usize,
    start: Address,
    need: int,
    q: int,
)
    requires
        space.wf(),
        alignable::<VM>(align as int),
        need > 0,
        (need - 1) * 4096 < size + align - VM::MIN_ALIGNMENT <= need * 4096,
        call_ensures(
            LargeObjectAllocator::<VM>::alloc_slow_once::<LXRLargeObjectSpace>,
            (allocator, space, size, align, offset),
            start,
        ),
        0 <= q,
        q + need <= space.los.used@.len(),
        forall|i: int| q <= i < q + need ==> !#[trigger] space.los.used@[i],
    ensures
        need > old(allocator).context.max_heap_pages <==> start@ == 0,
        start@ != 0 ==> {
            let first = (start@ - old(space).los.common.start) / 4096;
            &&& start@ == old(space).los.common.start + first * 4096
            &&& 0 <= first <= q
            &&& final(space).los.lengths@[first] == need
        },
        final(allocator).context.out_of_memory == (old(allocator).context.out_of_memory || need > old(allocator).context.max_heap_pages),
{
    assert(need == object_pages::<VM>(size as int, align as int));
    assert(run_free(space.los.used@, q, need));
}

/// What is set for one kind of request is had for it and changes no other; kinds of request have different
/// keys.
pub proof fn law_mapping_has_what_was_set(
    mapping: &mut AllocatorMapping,
    kind: AllocationSemantics,
    selector: AllocatorSelector,
    asked: AllocationSemantics,
    had: AllocatorSelector,
    has: AllocatorSelector,
    key: u8,
    other_key: u8,
)
    requires
        call_ensures(AllocatorMapping::get, (&*mapping, asked), had),
        call_ensures(AllocatorMapping::set, (mapping, kind, selector), ()),
        call_ensures(AllocatorMapping::get, (&*final(mapping), asked), has),
        call_ensures(AllocationSemantics::to_key, (kind,), key),
        call_ensures(AllocationSemantics::to_key, (asked,), other_key),
    ensures
        asked == kind ==> has == selector,
        asked != kind ==> has == had,
        key == other_key <==> kind == asked,
{
    let after = *final(mapping);
    assert(after.selector(asked) == (if asked == kind {
        selector
    } else {
        mapping.selector(asked)
    }));
}

/// Of the plan, ordinary objects and large ones are allocated, and nothing else is. A mapping that was just
/// created serves no kind of request.
pub proof fn law_plan_serves_ordinary_and_large_objects(
    empty: AllocatorMapping,
    none: AllocatorSelector,
    mapping: AllocatorMapping,
    asked: AllocationSemantics,
    selector: AllocatorSelector,
)
    requires
        call_ensures(create_allocator_mapping, (), empty),
        call_ensures(AllocatorMapping::get, (&empty, asked), none),
        call_ensures(allocator_mapping, (), mapping),
        call_ensures(AllocatorMapping::get, (&mapping, asked), selector),
    ensures
        none == AllocatorSelector::Unassigned,
        asked == AllocationSemantics::Default ==> selector == AllocatorSelector::Immix(0),
        asked == AllocationSemantics::Los ==> selector == AllocatorSelector::LargeObject(0),
        asked != AllocationSemantics::Default && asked != AllocationSemantics::Los ==> selector
            == AllocatorSelector::Unassigned,
{
}

/// Each allocator named exists, for the thread and in the context given, and no other does; one for large
/// objects takes its pages from the last space named for it.
pub proof fn law_allocators_named_exist<VM: VMBinding>(
    tls: usize,
    context: AllocatorContext,
    mapping: &Vec<(AllocatorSelector, SpaceKind)>,
    allocators: Allocators<VM>,
    i: int,
)
    requires
        mappable(mapping@),
        call_ensures(Allocators::<VM>::new, (tls, context, mapping), allocators),
        0 <= i < mapping@.len(),
    ensures
        mapping@[i].0 == AllocatorSelector::Immix(0) ==> allocators.immix is Some
            && allocators.immix->0.tls == tls && allocators.immix->0.context == context
            && allocators.immix->0.limit@ == 0 && !allocators.immix->0.copy,
        mapping@[i].0 == AllocatorSelector::LargeObject(0) ==> allocators.large_object is Some
            && allocators.large_object->0.tls == tls && allocators.large_object->0.context == context,
        mapping@[i].0 == AllocatorSelector::LargeObject(0) && (forall|j: int|
            i < j < mapping@.len() ==> (#[trigger] mapping@[j]).0 != AllocatorSelector::LargeObject(0))
            ==> allocators.large_object->0.space == mapping@[i].1,
        mapping@.len() == 1 && mapping@[i].0 == AllocatorSelector::Immix(0)
            ==> allocators.large_object is None,
        mapping@.len() == 1 && mapping@[i].0 == AllocatorSelector::LargeObject(0)
            ==> allocators.immix is None,
{
}

/// Before and after a collection, a mutator has no memory at hand, so that it never allocates where a
/// collection may have been; nothing else of it changes.
pub proof fn law_collections_take_the_memory_at_hand<VM: VMBinding>(
    preparing: &mut Mutator<VM>,
    releasing: &mut Mutator<VM>,
    calling: &mut Mutator<VM>,
    function: MutatorFunction,
    tls: usize,
)
    requires
        preparing.default_is_immix(),
        releasing.default_is_immix(),
        calling.default_is_immix(),
        call_ensures(lxr_mutator_prepare::<VM>, (preparing, tls), ()),
        call_ensures(lxr_mutator_release::<VM>, (releasing, tls), ()),
        call_ensures(MutatorFunction::call::<VM>, (function, calling, tls), ()),
    ensures
        final(preparing).allocators.immix is Some,
        final(preparing).allocators.immix->0.cursor@ == 0,
        final(preparing).allocators.immix->0.limit@ == 0,
        final(preparing).allocators.immix->0.tls == old(preparing).allocators.immix->0.tls,
        final(preparing).allocators.immix->0.context == old(preparing).allocators.immix->0.context,
        final(preparing).allocators.large_object == old(preparing).allocators.large_object,
        final(preparing).config == old(preparing).config,
        final(preparing).plan == old(preparing).plan,
        final(preparing).barrier == old(preparing).barrier,
        final(preparing).mutator_tls == old(preparing).mutator_tls,
        final(preparing).allocators.immix->0.copy == old(preparing).allocators.immix->0.copy,
        final(releasing).allocators.immix is Some,
        final(releasing).allocators.immix->0.cursor@ == 0,
        final(releasing).allocators.immix->0.limit@ == 0,
        final(releasing).allocators.immix->0.tls == old(releasing).allocators.immix->0.tls,
        final(releasing).allocators.immix->0.context == old(releasing).allocators.immix->0.context,
        final(releasing).allocators.large_object == old(releasing).allocators.large_object,
        final(releasing).config == old(releasing).config,
        final(releasing).plan == old(releasing).plan,
        final(releasing).barrier == old(releasing).barrier,
        final(releasing).mutator_tls == old(releasing).mutator_tls,
        final(releasing).allocators.immix->0.copy == old(releasing).allocators.immix->0.copy,
        final(calling).allocators.immix is Some,
        final(calling).allocators.immix->0.cursor@ == 0,
        final(calling).allocators.immix->0.limit@ == 0,
        final(calling).allocators.large_object == old(calling).allocators.large_object,
        final(calling).plan == old(calling).plan,
        final(calling).config == old(calling).config,
        final(calling).barrier == old(calling).barrier,
        final(calling).mutator_tls == old(calling).mutator_tls,
        final(calling).allocators.immix->0.tls == old(calling).allocators.immix->0.tls,
        final(calling).allocators.immix->0.context == old(calling).allocators.immix->0.context,
{
}

/// A mutator that is bound belongs to its thread and to the plan of the instance, watches stores to fields,
/// and can allocate ordinary objects and large ones in the spaces of the plan, with the limits of the
/// instance. It has no memory at hand.
#[verifier::spinoff_prover]
pub proof fn law_bound_mutator_belongs_to_its_plan<VM: VMBinding, H>(
    mmtk: &MMTK<H>,
    tls: usize,
    m: Box<Mutator<VM>>,
    asked: AllocationSemantics,
    selector: AllocatorSelector,
)
    requires
        call_ensures(bind_mutator::<VM, H>, (mmtk, tls), m),
        call_ensures(AllocatorMapping::get, (&m.config.allocator_mapping, asked), selector),
    ensures
        m.mutator_tls == tls,
        m.plan.immix_space == mmtk.plan.immix_space.immix.common.start,
        m.plan.los == mmtk.plan.los.los.common.start,
        m.barrier == BarrierSelector::FieldBarrier,
        m.config.prepare_func == MutatorFunction::LXRPrepare,
        m.config.release_func == MutatorFunction::LXRRelease,
        asked == AllocationSemantics::Default ==> selector == AllocatorSelector::Immix(0),
        asked == AllocationSemantics::Los ==> selector == AllocatorSelector::LargeObject(0),
        m.allocators.immix is Some && m.allocators.immix->0.tls == tls,
        m.allocators.immix->0.context == mmtk.context,
        m.allocators.immix->0.limit@ == 0,
        m.allocators.large_object is Some && m.allocators.large_object->0.tls == tls,
        m.allocators.large_object->0.context == mmtk.context,
        m.allocators.large_object->0.space == SpaceKind::LXRLargeObject,
        m.config.space_mapping@.contains((AllocatorSelector::Immix(0), SpaceKind::Immix)),
        m.config.space_mapping@.contains(
            (AllocatorSelector::LargeObject(0), SpaceKind::LXRLargeObject),
        ),
        m.config.space_mapping@.len() == 2,
{
    assert(m.config.space_mapping@[0] == (AllocatorSelector::Immix(0), SpaceKind::Immix));
    assert(m.config.space_mapping@[1] == (
        AllocatorSelector::LargeObject(0),
        SpaceKind::LXRLargeObject,
    ));
}

/// A mutator that is created is the one that is bound, and the plan is known by where its spaces begin.
#[verifier::spinoff_prover]
pub proof fn law_created_mutator_belongs_to_its_plan<VM: VMBinding, H>(
    mmtk: &MMTK<H>,
    tls: usize,
    m: Mutator<VM>,
    handle: PlanHandle,
    asked: AllocationSemantics,
    selector: AllocatorSelector,
)
    requires
        call_ensures(create_lxr_mutator::<VM, H>, (tls, mmtk), m),
        call_ensures(LXR::<H>::handle, (&mmtk.plan,), handle),
        call_ensures(AllocatorMapping::get, (&m.config.allocator_mapping, asked), selector),
    ensures
        handle.immix_space == mmtk.plan.immix_space.immix.common.start,
        handle.los == mmtk.plan.los.los.common.start,
        m.plan == handle,
        m.mutator_tls == tls,
        m.barrier == BarrierSelector::FieldBarrier,
        m.config.prepare_func == MutatorFunction::LXRPrepare,
        m.config.release_func == MutatorFunction::LXRRelease,
        asked == AllocationSemantics::Default ==> selector == AllocatorSelector::Immix(0),
        asked == AllocationSemantics::Los ==> selector == AllocatorSelector::LargeObject(0),
        m.allocators.immix is Some && m.allocators.immix->0.tls == tls,
        m.allocators.immix->0.context == mmtk.context,
        m.allocators.immix->0.limit@ == 0,
        m.allocators.large_object is Some && m.allocators.large_object->0.tls == tls,
        m.allocators.large_object->0.context == mmtk.context,
        m.allocators.large_object->0.space == SpaceKind::LXRLargeObject,
{
}

/// What an allocator for large objects tells of itself is what it was made with; it always looks at the space.
pub proof fn law_allocator_is_as_it_was_made<VM: VMBinding>(
    tls: usize,
    space: SpaceKind,
    context: AllocatorContext,
    allocator: LargeObjectAllocator<VM>,
    told_tls: usize,
    told_context: &AllocatorContext,
    told_space: SpaceKind,
    local: bool,
    none: AllocatorSelector,
)
    requires
        call_ensures(LargeObjectAllocator::<VM>::new, (tls, space, context), allocator),
        call_ensures(LargeObjectAllocator::<VM>::get_tls, (&allocator,), told_tls),
        call_ensures(LargeObjectAllocator::<VM>::get_context, (&allocator,), told_context),
        call_ensures(LargeObjectAllocator::<VM>::get_space, (&allocator,), told_space),
        call_ensures(
            LargeObjectAllocator::<VM>::does_thread_local_allocation,
            (&allocator,),
            local,
        ),
        call_ensures(<AllocatorSelector as Default>::default, (), none),
    ensures
        told_tls == tls && *told_context == context && told_space == space && !local,
        none == AllocatorSelector::Unassigned,
{
}

/// What a virtual machine allocates for ordinary objects lies where they fit, and leaves the large objects
/// alone.
#[verifier::spinoff_prover]
pub proof fn law_mutator_allocates_ordinary_objects<VM: VMBinding, H: ImmixHooks>(
    mutator: &mut Mutator<VM>,
    plan: &mut LXR<H>,
    size: usize,
    align: usize,
    offset: usize,
    a: Address,
    x: int,
)
    requires
        plan.wf(),
        mutator.allocators.immix is Some,
        mutator.allocators.immix->0.wf(plan.immix_space),
        plan.immix_space.immix.common.start > 0,
        0 < size,
        size + align <= 32768,
        alignable::<VM>(align as int),
        call_ensures(
            allocate::<VM, H>,
            (mutator, plan, size, align, offset, AllocationSemantics::Default),
            a,
        ),
    ensures
        final(mutator).allocators.immix is Some,
        well_placed(
            old(mutator).allocators.immix->0,
            old(plan).immix_space,
            size as int,
            align as int,
            offset as int,
            final(mutator).allocators.immix->0,
            final(plan).immix_space,
            a@,
            x,
        ),
        final(mutator).allocators.large_object == old(mutator).allocators.large_object,
        final(plan).los == old(plan).los,
        final(mutator).plan == old(mutator).plan,
        final(mutator).config == old(mutator).config,
        final(mutator).barrier == old(mutator).barrier,
        final(mutator).mutator_tls == old(mutator).mutator_tls,
{
    lemma_well_placed(
        mutator.allocators.immix->0,
        plan.immix_space,
        size as int,
        align as int,
        offset as int,
        final(mutator).allocators.immix->0,
        final(plan).immix_space,
        a,
        x,
    );
}

/// What a virtual machine allocates for large objects lies on free pages, and leaves the ordinary objects
/// alone.
#[verifier::spinoff_prover]
pub proof fn law_mutator_allocates_large_objects<VM: VMBinding, H: ImmixHooks>(
    mutator: &mut Mutator<VM>,
    plan: &mut LXR<H>,
    size: usize,
    align: usize,
    offset: usize,
    a: Address,
    need: int,
    p: int,
    q: int,
)
    requires
        plan.wf(),
        mutator.allocators.large_object is Some,
        alignable::<VM>(align as int),
        need > 0,
        (need - 1) * 4096 < size + align - VM::MIN_ALIGNMENT <= need * 4096,
        need <= mutator.allocators.large_object->0.context.max_heap_pages,
        call_ensures(
            allocate::<VM, H>,
            (mutator, plan, size, align, offset, AllocationSemantics::Los),
            a,
        ),
    ensures
        well_paged(
            old(plan).los.los,
            need,
            align as int,
            offset as int,
            final(plan).los.los,
            a@,
            p,
            q,
        ),
        final(mutator).allocators.immix == old(mutator).allocators.immix,
        final(plan).immix_space == old(plan).immix_space,
        final(plan).los.rc == old(plan).los.rc,
        final(mutator).plan == old(mutator).plan,
        final(mutator).config == old(mutator).config,
        final(mutator).barrier == old(mutator).barrier,
        final(mutator).mutator_tls == old(mutator).mutator_tls,
        final(plan).los.is_end_of_satb_or_full_gc == old(plan).los.is_end_of_satb_or_full_gc,
        final(plan).los.bump_page_reuse_count == old(plan).los.bump_page_reuse_count,
{
    assert(need == object_pages::<VM>(size as int, align as int));
    lemma_well_paged::<VM>(
        plan.los.los,
        mutator.allocators.large_object->0.context.max_heap_pages as int,
        size as int,
        align as int,
        offset as int,
        final(plan).los.los,
        a,
        need,
        p,
        q,
    );
}

/// A new instance has a heap of the size asked for: the pages and blocks that fit into it, all of them free,
/// in two spaces that do not overlap. Collections are triggered only once it was told to, and not after it
/// was told not to.
#[verifier::spinoff_prover]
pub proof fn law_instance_has_the_heap_asked_for<H>(
    builder: &MMTKBuilder,
    size: usize,
    m: MMTK<H>,
    starting: &mut MMTK<H>,
    stopping: &mut MMTK<H>,
)
    requires
        builder.options.gc_trigger == GCTriggerSelector::FixedHeapSize(size),
        call_ensures(MMTK::<H>::new, (builder, size), m),
        *starting == m,
        call_ensures(initialize_collection::<H>, (starting,), ()),
        *stopping == *final(starting),
        call_ensures(disable_collection::<H>, (stopping,), ()),
    ensures
        m.context.max_heap_pages * 4096 <= size < (m.context.max_heap_pages + 1) * 4096,
        !m.context.out_of_memory,
        m.plan.los.los.used@.len() == m.context.max_heap_pages,
        ({
            let blocks = m.plan.immix_space.immix.block_states@.len();
            let start = m.plan.immix_space.immix.common.start;
            &&& blocks * 32768 <= size < (blocks + 1) * 32768
            &&& m.plan.immix_space.immix.pr.free@.len() == blocks
            &&& start > 0
            &&& start + blocks * 32768 <= m.plan.los.los.common.start
        }),
        m.plan.los.los.treadmill.alloc_nursery@.len() == 0,
        m.plan.los.los.treadmill.mature@.len() == 0,
        m.options == builder.options,
        !m.collection_enabled && !m.initialized,
        final(starting).collection_enabled && final(starting).initialized,
        final(starting).plan == m.plan,
        !final(stopping).collection_enabled && final(stopping).initialized,
        final(stopping).plan == m.plan,
{
    let los = m.plan.los.los;
    assert(los.treadmill.all().len() == los.treadmill.alloc_nursery@.len()
        + los.treadmill.mature@.len());
    assert(m.plan.immix_space.immix.blocks() == m.plan.immix_space.immix.block_states@.len());
}

} // verus!
