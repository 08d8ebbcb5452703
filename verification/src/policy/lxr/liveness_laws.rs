//! What holds of the answers to whether an object is alive or reachable.
use crate::policy::lxr::evacuation_laws::lemma_same_block_index;
use crate::policy::lxr::immixspace::LXRSpace;
use crate::policy::lxr::terms::{count_at, inside, marked_at, moved_to, to_evacuate};
use crate::util::address::ObjectReference;
use vstd::prelude::*;

verus! {

/// While no trace is complete, an object is alive if it has a count, whatever the count and whether it is
/// marked or not, or if it was moved; and an object without a count that was not moved is dead.
pub proof fn law_counts_keep_alive<H>(space: &LXRSpace<H>, object: ObjectReference, live: bool)
    requires
        space.wf(),
        inside(*space, object@),
        !space.is_end_of_satb_or_full_gc,
        call_ensures(LXRSpace::<H>::is_live, (space, object), live),
    ensures
        count_at(*space, object@) > 0 ==> live,
        moved_to(*space, object@) is Some ==> live,
        count_at(*space, object@) == 0 && moved_to(*space, object@) is None ==> !live,
{
}

/// Once a trace is complete, an object that it did not reach is dead: neither it nor a copy of it is
/// marked. One that is marked, not to be moved and has a count is alive; one that has none is dead.
#[verifier::spinoff_prover]
pub proof fn law_complete_trace_decides<H>(space: &LXRSpace<H>, object: ObjectReference, live: bool)
    requires
        space.wf(),
        inside(*space, object@),
        space.is_end_of_satb_or_full_gc,
        call_ensures(LXRSpace::<H>::is_live, (space, object), live),
    ensures
        !marked_at(*space, object@) && moved_to(*space, object@) is None ==> !live,
        marked_at(*space, object@) && !to_evacuate(*space, object@) && count_at(*space, object@) > 0
            ==> live,
        marked_at(*space, object@) && !to_evacuate(*space, object@) && count_at(*space, object@)
            == 0 ==> !live,
        marked_at(*space, object@) && to_evacuate(*space, object@) && moved_to(
            *space,
            object@,
        ) is None ==> !live,
{
    lemma_same_block_index(object@, space.immix.common.start as int);
}

/// Once a trace is complete, an object that was moved, and is not marked any more or was to be moved, is
/// alive exactly if its copy is marked and has a count, whatever its own count is.
#[verifier::spinoff_prover]
pub proof fn law_moved_object_lives_by_its_copy<H>(
    space: &LXRSpace<H>,
    object: ObjectReference,
    live: bool,
    copy: int,
)
    requires
        space.wf(),
        inside(*space, object@),
        space.is_end_of_satb_or_full_gc,
        moved_to(*space, object@) == Some(copy),
        inside(*space, copy),
        !marked_at(*space, object@) || to_evacuate(*space, object@),
        call_ensures(LXRSpace::<H>::is_live, (space, object), live),
    ensures
        live == (marked_at(*space, copy) && count_at(*space, copy) > 0),
{
    lemma_same_block_index(object@, space.immix.common.start as int);
}

/// Raising counts never turns an object from alive to dead, nor from reachable to not reachable.
#[verifier::spinoff_prover]
pub proof fn law_more_counts_keep_alive<H>(
    space: &LXRSpace<H>,
    more: &LXRSpace<H>,
    object: ObjectReference,
    live: bool,
    live_with_more: bool,
    reachable: bool,
    reachable_with_more: bool,
)
    requires
        space.wf(),
        more.wf(),
        inside(*space, object@),
        moved_to(*space, object@) matches Some(to) ==> inside(*space, to),
        more.immix == space.immix,
        more.is_end_of_satb_or_full_gc == space.is_end_of_satb_or_full_gc,
        forall|a: int|
            inside(*space, a) ==> count_at(*space, a) <= #[trigger] count_at(*more, a),
        call_ensures(LXRSpace::<H>::is_live, (space, object), live),
        call_ensures(LXRSpace::<H>::is_live, (more, object), live_with_more),
        call_ensures(LXRSpace::<H>::is_reachable, (space, object), reachable),
        call_ensures(LXRSpace::<H>::is_reachable, (more, object), reachable_with_more),
    ensures
        live ==> live_with_more,
        reachable ==> reachable_with_more,
{
    assert(count_at(*space, object@) <= count_at(*more, object@));
    if let Some(to) = moved_to(*space, object@) {
        assert(count_at(*space, to) <= count_at(*more, to));
    }
}

/// An object is reachable if it was not moved, is marked and has a count; or if it was moved, and its
/// copy is marked and has a count. In no other case.
pub proof fn law_reachable_is_marked_and_counted<H>(
    space: &LXRSpace<H>,
    object: ObjectReference,
    reachable: bool,
)
    requires
        space.wf(),
        inside(*space, object@),
        call_ensures(LXRSpace::<H>::is_reachable, (space, object), reachable),
    ensures
        moved_to(*space, object@) is None ==> reachable == (marked_at(*space, object@) && count_at(
            *space,
            object@,
        ) > 0),
        moved_to(*space, object@) matches Some(to) ==> reachable == (marked_at(*space, to)
            && count_at(*space, to) > 0),
{
}

/// Where an object was moved to is what was recorded of it, and an object that was not moved is nowhere
/// else.
pub proof fn law_forwarded_object_is_what_was_recorded<H>(
    space: &LXRSpace<H>,
    object: ObjectReference,
    to: Option<ObjectReference>,
)
    requires
        space.wf(),
        inside(*space, object@),
        call_ensures(LXRSpace::<H>::get_forwarded_object, (space, object), to),
    ensures
        to is None <==> moved_to(*space, object@) is None,
        to matches Some(o) ==> moved_to(*space, object@) == Some(o@),
{
}

} // verus!
