//! What holds of the pages and the lists of objects of a large object space.
use crate::policy::largeobjectspace::{run_free, LargeObjectSpace, LargeObjectSpaceArgs};
use crate::util::address::{Address, ObjectReference};
use crate::util::allocation::large_object_allocator::LargeObjectSpaceExt;
use crate::util::metadata::side_metadata::SideMetadataSpec;
use vstd::prelude::*;

verus! {

/// The number of the page that `a` lies on.
pub open spec fn number_of_page(space: LargeObjectSpace, a: int) -> int {
    (a - space.common.start) / 4096
}

/// Whether the memory at `a` belongs to the space.
pub open spec fn page_inside(space: LargeObjectSpace, a: int) -> bool {
    space.common.start <= a < space.common.start + space.used@.len() * 4096
}

/// Pages taken were free, are as many as asked for, and come as early as they can; they are in use from then on, as
/// one allocation of that length, and no other page changes. None are taken only where no place has as many.
#[verifier::spinoff_prover]
pub proof fn law_pages_are_taken_where_they_are_free(
    space: &mut LargeObjectSpace,
    pages: usize,
    start: Address,
    told: usize,
    p: int,
    q: int,
)
    requires
        space.wf(),
        pages > 0,
        call_ensures(LargeObjectSpace::allocate_pages, (space, pages), start),
        call_ensures(
            <LargeObjectSpace as LargeObjectSpaceExt>::allocate_pages,
            (space, pages),
            start,
        ),
        call_ensures(LargeObjectSpace::pages_for_start, (&*final(space), start), told),
        0 <= p < space.used@.len(),
    ensures
        ({
            let place = 0 <= q && q + pages <= old(space).used@.len() && forall|i: int|
                q <= i < q + pages ==> !#[trigger] old(space).used@[i];
            let first = number_of_page(*old(space), start@);
            let taken = first <= p < first + pages;
            &&& place ==> start@ != 0
            &&& start@ == 0 ==> *final(space) == *old(space)
            &&& start@ != 0 ==> {
                &&& start@ == old(space).common.start + first * 4096
                &&& 0 <= first
                &&& first + pages <= old(space).used@.len()
                &&& place ==> first <= q
                &&& taken ==> !old(space).used@[p] && final(space).used@[p]
                &&& !taken ==> final(space).used@[p] == old(space).used@[p]
                &&& told == pages
                &&& p != first ==> final(space).lengths@[p] == old(space).lengths@[p]
            }
        }),
        final(space).treadmill == old(space).treadmill,
{
    let place = 0 <= q && q + pages <= space.used@.len() && forall|i: int|
        q <= i < q + pages ==> !#[trigger] space.used@[i];
    if place {
        assert(run_free(space.used@, q, pages as int));
    }
}

/// An allocation that is given back is as long as it was; its pages are free and no others change.
#[verifier::spinoff_prover]
pub proof fn law_pages_are_given_back_together(
    space: &mut LargeObjectSpace,
    start: Address,
    before: usize,
    pages: usize,
    after: usize,
    p: int,
)
    requires
        space.wf(),
        page_inside(*space, start@),
        call_ensures(LargeObjectSpace::pages_for_start, (&*space, start), before),
        call_ensures(LargeObjectSpace::release_pages_at, (space, start), pages),
        call_ensures(LargeObjectSpace::pages_for_start, (&*final(space), start), after),
        0 <= p < space.used@.len(),
    ensures
        pages == before,
        before == old(space).lengths@[number_of_page(*old(space), start@)],
        after == 0,
        ({
            let first = number_of_page(*old(space), start@);
            let given = first <= p < first + pages;
            &&& given ==> !final(space).used@[p]
            &&& !given ==> final(space).used@[p] == old(space).used@[p]
            &&& p != first ==> final(space).lengths@[p] == old(space).lengths@[p]
        }),
        final(space).treadmill == old(space).treadmill,
        final(space).field_unlog == old(space).field_unlog,
{
}

/// Flipping the mark state makes what was reached unreached, and the other way round; flipping twice changes
/// nothing.
#[verifier::spinoff_prover]
pub proof fn law_flipping_exchanges_reached_and_unreached(
    first: &mut LargeObjectSpace,
    second: &mut LargeObjectSpace,
    before: u8,
    after: u8,
    p: int,
)
    requires
        first.wf(),
        call_ensures(LargeObjectSpace::mark_state, (&*first,), before),
        call_ensures(LargeObjectSpace::flip_mark_state, (first,), ()),
        call_ensures(LargeObjectSpace::mark_state, (&*final(first),), after),
        *second == *final(first),
        call_ensures(LargeObjectSpace::flip_mark_state, (second,), ()),
        0 <= p < first.mark_nursery@.len(),
    ensures
        before <= 1 && after <= 1 && before != after,
        (final(first).mark_nursery@[p] & 1u8 == after) == !(old(first).mark_nursery@[p] & 1u8
            == before),
        final(first).mark_nursery == old(first).mark_nursery,
        final(first).used == old(first).used,
        final(first).treadmill == old(first).treadmill,
        final(second).mark_state == before,
{
    let entry = first.mark_nursery@[p];
    assert(entry & 1 == 0 || entry & 1 == 1) by (bit_vector);
}

/// Log entries: those of the pages given are cleared and no others; or all are set to the value given.
#[verifier::spinoff_prover]
pub proof fn law_log_entries_of_pages_are_cleared(
    clearing: &mut LargeObjectSpace,
    start: Address,
    pages: usize,
    filling: &mut LargeObjectSpace,
    value: u8,
    a: int,
)
    requires
        clearing.wf(),
        page_inside(*clearing, start@),
        number_of_page(*clearing, start@) + pages <= clearing.used@.len(),
        call_ensures(LargeObjectSpace::clear_field_unlog, (clearing, start, pages), ()),
        *filling == *clearing,
        call_ensures(LargeObjectSpace::fill_side_log_bits, (filling, value), ()),
        page_inside(*clearing, a),
    ensures
        ({
            let first = number_of_page(*old(clearing), start@);
            let here = first <= number_of_page(*old(clearing), a) < first + pages;
            let w = (a - old(clearing).common.start) / 8;
            &&& here ==> final(clearing).field_unlog@[w] == 0
            &&& !here ==> final(clearing).field_unlog@[w] == old(clearing).field_unlog@[w]
            &&& final(filling).field_unlog@[w] == value
        }),
        final(clearing).used == old(clearing).used,
        final(clearing).treadmill == old(clearing).treadmill,
        final(filling).used == old(filling).used,
        final(filling).treadmill == old(filling).treadmill,
{
    let d = a - clearing.common.start;
    assert((d / 8) / 512 == d / 4096);
}

/// The lists of objects: one that is added is the last of the new ones, or of the old ones; taking all new ones, or
/// all old ones, gives them in order and leaves none, and leaves the others.
#[verifier::spinoff_prover]
pub proof fn law_objects_are_listed_in_order(
    adding: &mut LargeObjectSpace,
    o: ObjectReference,
    nursery: bool,
    taking: &mut LargeObjectSpace,
    new: Vec<ObjectReference>,
    sweeping: &mut LargeObjectSpace,
    mature: Vec<ObjectReference>,
)
    requires
        call_ensures(LargeObjectSpace::treadmill_add, (adding, o, nursery), ()),
        call_ensures(LargeObjectSpace::treadmill_collect_alloc_nursery, (taking,), new),
        call_ensures(LargeObjectSpace::treadmill_collect_mature, (sweeping,), mature),
    ensures
        nursery ==> final(adding).treadmill.alloc_nursery@ == old(adding).treadmill.alloc_nursery@.push(o) && final(adding).treadmill.mature@ == old(adding).treadmill.mature@,
        !nursery ==> final(adding).treadmill.mature@ == old(adding).treadmill.mature@.push(o)
            && final(adding).treadmill.alloc_nursery@ == old(adding).treadmill.alloc_nursery@,
        final(adding).used == old(adding).used,
        new@ == old(taking).treadmill.alloc_nursery@,
        final(taking).treadmill.alloc_nursery@.len() == 0,
        final(taking).treadmill.mature == old(taking).treadmill.mature,
        final(taking).used == old(taking).used,
        mature@ == old(sweeping).treadmill.mature@,
        final(sweeping).treadmill.mature@.len() == 0,
        final(sweeping).treadmill.alloc_nursery == old(sweeping).treadmill.alloc_nursery,
        final(sweeping).used == old(sweeping).used,
{
}

/// An old object that is taken off the list is there no more, and the others are; it is found exactly if it was
/// there.
#[verifier::spinoff_prover]
pub proof fn law_removed_object_is_listed_no_more(
    space: &mut LargeObjectSpace,
    o: ObjectReference,
    found: bool,
    x: ObjectReference,
)
    requires
        space.wf(),
        call_ensures(LargeObjectSpace::treadmill_remove_mature, (space, o), found),
    ensures
        found <==> old(space).treadmill.mature@.contains(o),
        !final(space).treadmill.mature@.contains(o),
        x != o ==> final(space).treadmill.mature@.contains(x) == old(space).treadmill.mature@.contains(x),
        final(space).treadmill.alloc_nursery@ == old(space).treadmill.alloc_nursery@,
        final(space).used == old(space).used,
{
    let was = space.treadmill.mature@;
    let now = final(space).treadmill.mature@;
    let all = space.treadmill.all();
    let n = space.treadmill.alloc_nursery@.len() as int;
    if found {
        let k = choose|k: int| 0 <= k < was.len() && #[trigger] was[k] == o && now == was.remove(k);
        assert(all[n + k] == o);
        if now.contains(o) {
            let j = now.index_of(o);
            let m = if j < k {
                j
            } else {
                j + 1
            };
            assert(was[m] == o);
            assert(all[n + m] == o);
        }
        if was.contains(x) && x != o {
            let j = was.index_of(x);
            assert(now[if j < k {
                j
            } else {
                j - 1
            }] == x);
        }
        if now.contains(x) {
            let j = now.index_of(x);
            assert(was[if j < k {
                j
            } else {
                j + 1
            }] == x);
        }
    }
}

/// A new space has no objects and no page in use.
#[verifier::spinoff_prover]
pub proof fn law_new_page_space_is_empty(
    args: LargeObjectSpaceArgs,
    protect: bool,
    clear_log: bool,
    extra: Vec<SideMetadataSpec>,
    space: LargeObjectSpace,
    p: int,
)
    requires
        call_ensures(
            LargeObjectSpace::new_with_extra_side_metadata_specs,
            (args, protect, clear_log, extra),
            space,
        ),
        0 <= p < args.pages,
    ensures
        space.used@.len() == args.pages,
        !space.used@[p],
        space.lengths@[p] == 0,
        space.common.start == args.start.0,
        space.treadmill.alloc_nursery@.len() == 0,
        space.treadmill.mature@.len() == 0,
        space.num_pages_released_lazy == 0,
        space.protect_memory_on_release == protect,
        space.clear_log_bit_on_sweep == clear_log,
{
}

} // verus!
