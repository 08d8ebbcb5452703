//! What the operations of the large object space leave as it is.
use crate::plan::tracing::ObjectQueue;
use crate::policy::largeobjectspace::LargeObjectSpace;
use crate::policy::lxr::largeobjectspace::LXRLargeObjectSpace;
use crate::util::address::{Address, ObjectReference};
use vstd::prelude::*;

verus! {

/// Whether the space lies where it lay, and is used as it was.
pub open spec fn los_same_place(before: LargeObjectSpace, after: LargeObjectSpace) -> bool {
    &&& after.common == before.common
    &&& after.protect_memory_on_release == before.protect_memory_on_release
    &&& after.clear_log_bit_on_sweep == before.clear_log_bit_on_sweep
}

/// Whether the same pages are in use, by the same objects.
pub open spec fn los_same_pages(before: LargeObjectSpace, after: LargeObjectSpace) -> bool {
    &&& after.used == before.used
    &&& after.lengths == before.lengths
    &&& after.treadmill == before.treadmill
    &&& after.num_pages_released_lazy == before.num_pages_released_lazy
}

/// Whether the marks, and what they mean, are the same.
pub open spec fn los_same_marks(before: LargeObjectSpace, after: LargeObjectSpace) -> bool {
    &&& after.mark_nursery == before.mark_nursery
    &&& after.mark_state == before.mark_state
}

/// Whether counts, and what decides what is alive, are the same.
pub open spec fn los_same_counts(
    before: LXRLargeObjectSpace,
    after: LXRLargeObjectSpace,
) -> bool {
    &&& after.rc == before.rc
    &&& los_same_ways(before, after)
}

/// Whether what decides what is alive, and whether the reuse of pages is recorded, are the same.
pub open spec fn los_same_ways(before: LXRLargeObjectSpace, after: LXRLargeObjectSpace) -> bool {
    &&& after.is_end_of_satb_or_full_gc == before.is_end_of_satb_or_full_gc
    &&& after.bump_page_reuse_count == before.bump_page_reuse_count
}

/// Taking and giving back pages touches no mark and no count, and no object but the one given back.
#[verifier::spinoff_prover]
pub proof fn law_pages_are_taken_and_given_back_alone(
    taking: &mut LXRLargeObjectSpace,
    pages: usize,
    start: Address,
    giving: &mut LXRLargeObjectSpace,
    first: Address,
    releasing: &mut LXRLargeObjectSpace,
    object: ObjectReference,
    given: usize,
    freeing: &mut LXRLargeObjectSpace,
)
    requires
        call_ensures(LXRLargeObjectSpace::allocate_pages, (taking, pages), start),
        call_ensures(LXRLargeObjectSpace::release_multiple_pages, (giving, first), ()),
        call_ensures(LXRLargeObjectSpace::release_object, (releasing, object), given),
        call_ensures(LXRLargeObjectSpace::rc_free, (freeing, object), ()),
    ensures
        los_same_place(old(taking).los, final(taking).los),
        los_same_marks(old(taking).los, final(taking).los),
        los_same_counts(*old(taking), *final(taking)),
        final(taking).los.treadmill == old(taking).los.treadmill,
        final(taking).los.field_unlog == old(taking).los.field_unlog,
        final(taking).los.page_reuse_counts == old(taking).los.page_reuse_counts,
        final(taking).los.num_pages_released_lazy == old(taking).los.num_pages_released_lazy,
        los_same_place(old(giving).los, final(giving).los),
        los_same_marks(old(giving).los, final(giving).los),
        los_same_counts(*old(giving), *final(giving)),
        final(giving).los.treadmill == old(giving).los.treadmill,
        final(giving).los.field_unlog == old(giving).los.field_unlog,
        final(giving).los.page_reuse_counts == old(giving).los.page_reuse_counts,
        final(giving).los.num_pages_released_lazy == old(giving).los.num_pages_released_lazy,
        los_same_place(old(releasing).los, final(releasing).los),
        los_same_marks(old(releasing).los, final(releasing).los),
        los_same_counts(*old(releasing), *final(releasing)),
        final(releasing).los.treadmill == old(releasing).los.treadmill,
        final(releasing).los.page_reuse_counts == old(releasing).los.page_reuse_counts,
        final(releasing).los.num_pages_released_lazy == old(releasing).los.num_pages_released_lazy,
        los_same_place(old(freeing).los, final(freeing).los),
        los_same_marks(old(freeing).los, final(freeing).los),
        los_same_counts(*old(freeing), *final(freeing)),
        final(freeing).los.treadmill.alloc_nursery == old(freeing).los.treadmill.alloc_nursery,
        final(freeing).los.page_reuse_counts == old(freeing).los.page_reuse_counts,
{
}

/// A new object is set up without touching any page, count or word, and without changing what a mark means;
/// marking and tracing an object touch nothing but marks.
#[verifier::spinoff_prover]
pub proof fn law_objects_are_set_up_and_marked_alone<Q: ObjectQueue>(
    setting: &mut LXRLargeObjectSpace,
    object: ObjectReference,
    bytes: usize,
    marking: &mut LXRLargeObjectSpace,
    fresh: bool,
    tracing: &mut LXRLargeObjectSpace,
    queue: &mut Q,
    traced: ObjectReference,
)
    requires
        call_ensures(LXRLargeObjectSpace::initialize_object_metadata, (setting, object, bytes), ()),
        call_ensures(LXRLargeObjectSpace::test_and_mark, (marking, object), fresh),
        call_ensures(LXRLargeObjectSpace::trace_object::<Q>, (tracing, queue, object), traced),
    ensures
        los_same_place(old(setting).los, final(setting).los),
        los_same_counts(*old(setting), *final(setting)),
        final(setting).los.used == old(setting).los.used,
        final(setting).los.lengths == old(setting).los.lengths,
        final(setting).los.field_unlog == old(setting).los.field_unlog,
        final(setting).los.mark_state == old(setting).los.mark_state,
        final(setting).los.treadmill.mature@ == old(setting).los.treadmill.mature@,
        final(setting).los.num_pages_released_lazy == old(setting).los.num_pages_released_lazy,
        los_same_place(old(marking).los, final(marking).los),
        los_same_pages(old(marking).los, final(marking).los),
        los_same_counts(*old(marking), *final(marking)),
        final(marking).los.field_unlog == old(marking).los.field_unlog,
        final(marking).los.page_reuse_counts == old(marking).los.page_reuse_counts,
        final(marking).los.mark_state == old(marking).los.mark_state,
        los_same_place(old(tracing).los, final(tracing).los),
        los_same_pages(old(tracing).los, final(tracing).los),
        los_same_counts(*old(tracing), *final(tracing)),
        final(tracing).los.field_unlog == old(tracing).los.field_unlog,
        final(tracing).los.page_reuse_counts == old(tracing).los.page_reuse_counts,
        final(tracing).los.mark_state == old(tracing).los.mark_state,
{
}

/// The start of a collection touches no object and no page; its end, and going through the old objects, touch
/// no mark. Neither changes what decides what is alive.
#[verifier::spinoff_prover]
pub proof fn law_collections_leave_marks_alone<F: Fn(ObjectReference) -> bool>(
    starting: &mut LXRLargeObjectSpace,
    full_heap: bool,
    ending: &mut LXRLargeObjectSpace,
    nursery: &mut LXRLargeObjectSpace,
    sweeping: &mut LXRLargeObjectSpace,
    is_live: &F,
)
    requires
        call_ensures(LXRLargeObjectSpace::prepare, (starting, full_heap), ()),
        call_ensures(LXRLargeObjectSpace::release, (ending, full_heap), ()),
        call_ensures(LXRLargeObjectSpace::release_rc_nursery_objects, (nursery,), ()),
        call_ensures(
            LXRLargeObjectSpace::sweep_rc_mature_objects_after_satb::<F>,
            (sweeping, is_live),
            (),
        ),
    ensures
        los_same_place(old(starting).los, final(starting).los),
        los_same_counts(*old(starting), *final(starting)),
        final(starting).los.used == old(starting).los.used,
        final(starting).los.lengths == old(starting).los.lengths,
        final(starting).los.treadmill == old(starting).los.treadmill,
        final(starting).los.mark_nursery == old(starting).los.mark_nursery,
        final(starting).los.field_unlog == old(starting).los.field_unlog,
        final(starting).los.page_reuse_counts == old(starting).los.page_reuse_counts,
        los_same_place(old(ending).los, final(ending).los),
        los_same_marks(old(ending).los, final(ending).los),
        los_same_counts(*old(ending), *final(ending)),
        final(ending).los.page_reuse_counts == old(ending).los.page_reuse_counts,
        final(ending).los.num_pages_released_lazy == old(ending).los.num_pages_released_lazy,
        los_same_place(old(nursery).los, final(nursery).los),
        los_same_marks(old(nursery).los, final(nursery).los),
        los_same_counts(*old(nursery), *final(nursery)),
        final(nursery).los.page_reuse_counts == old(nursery).los.page_reuse_counts,
        final(nursery).los.num_pages_released_lazy == old(nursery).los.num_pages_released_lazy,
        los_same_place(old(sweeping).los, final(sweeping).los),
        los_same_marks(old(sweeping).los, final(sweeping).los),
        los_same_ways(*old(sweeping), *final(sweeping)),
        final(sweeping).rc.start == old(sweeping).rc.start,
        final(sweeping).rc.straddle == old(sweeping).rc.straddle,
        final(sweeping).rc.inc_buffer_size == old(sweeping).rc.inc_buffer_size,
        final(sweeping).los.page_reuse_counts == old(sweeping).los.page_reuse_counts,
        final(sweeping).los.treadmill.alloc_nursery@ == old(sweeping).los.treadmill.alloc_nursery@,
{
}

/// Setting and clearing log bits touches nothing but log bits.
pub proof fn law_log_bits_are_filled_alone(
    setting: &mut LXRLargeObjectSpace,
    clearing: &mut LXRLargeObjectSpace,
)
    requires
        call_ensures(LXRLargeObjectSpace::set_side_log_bits, (setting,), ()),
        call_ensures(LXRLargeObjectSpace::clear_side_log_bits, (clearing,), ()),
    ensures
        los_same_place(old(setting).los, final(setting).los),
        los_same_pages(old(setting).los, final(setting).los),
        los_same_marks(old(setting).los, final(setting).los),
        los_same_counts(*old(setting), *final(setting)),
        final(setting).los.page_reuse_counts == old(setting).los.page_reuse_counts,
        los_same_place(old(clearing).los, final(clearing).los),
        los_same_pages(old(clearing).los, final(clearing).los),
        los_same_marks(old(clearing).los, final(clearing).los),
        los_same_counts(*old(clearing), *final(clearing)),
        final(clearing).los.page_reuse_counts == old(clearing).los.page_reuse_counts,
{
}

} // verus!
