//! What holds of large objects, of their marks and of their pages.
use crate::plan::tracing::ObjectQueue;
use crate::policy::immix::immixspace::CommonSpace;
use crate::policy::largeobjectspace::{run_free, LargeObjectSpaceArgs};
use crate::policy::lxr::largeobjectspace::{
    lazily_released, mature_released, objects_released, page_of_any, selected, starts_any, survivors,
    LXRLargeObjectSpace,
};
use crate::util::address::{Address, ObjectReference};
use vstd::prelude::*;

verus! {

/// The page that `a` lies on.
pub open spec fn page_at(space: LXRLargeObjectSpace, a: int) -> int {
    (a - space.los.common.start) / 4096
}

/// Whether the memory at `a` belongs to the space.
pub open spec fn has(space: LXRLargeObjectSpace, a: int) -> bool {
    space.los.common.start <= a < space.los.common.start + space.los.used@.len() * 4096
}

/// The reference count kept for the 16 bytes that `a` lies in.
pub open spec fn large_count(space: LXRLargeObjectSpace, a: int) -> u8 {
    space.rc.counts@[(a - space.rc.start) / 16]
}

/// Whether the page that `a` lies on carries the mark of the current trace.
pub open spec fn large_mark(space: LXRLargeObjectSpace, a: int) -> bool {
    space.los.mark_nursery@[page_at(space, a)] & 1u8 == space.los.mark_state
}

/// How many pages the allocation has that starts on the page of `a`; none if there is none.
pub open spec fn pages_of(space: LXRLargeObjectSpace, a: int) -> usize {
    space.los.lengths@[page_at(space, a)]
}

/// Whether the page `p` is one of the pages of `object`.
pub open spec fn page_belongs(space: LXRLargeObjectSpace, object: int, p: int) -> bool {
    page_at(space, object) <= p < page_at(space, object) + pages_of(space, object)
}

/// While no trace is complete, a large object that has a count is alive, marked or not. Once one is, it is
/// alive if it has a count and was marked. It is reachable if both hold, at any time.
pub proof fn law_counts_keep_large_objects_alive(
    space: LXRLargeObjectSpace,
    o: ObjectReference,
    live: bool,
    reachable: bool,
    marked: bool,
)
    requires
        space.wf(),
        has(space, o@),
        call_ensures(LXRLargeObjectSpace::is_live, (&space, o), live),
        call_ensures(LXRLargeObjectSpace::is_reachable, (&space, o), reachable),
        call_ensures(LXRLargeObjectSpace::is_marked, (&space, o), marked),
    ensures
        !space.is_end_of_satb_or_full_gc ==> live == (large_count(space, o@) > 0),
        space.is_end_of_satb_or_full_gc ==> live == (large_count(space, o@) > 0 && large_mark(
            space,
            o@,
        )),
        reachable == (large_count(space, o@) > 0 && large_mark(space, o@)),
        marked == large_mark(space, o@),
        reachable ==> live,
{
}

/// A higher count never makes a large object that is alive a dead one.
pub proof fn law_more_counts_keep_large_objects_alive(
    before: LXRLargeObjectSpace,
    after: LXRLargeObjectSpace,
    o: ObjectReference,
    was: bool,
    is: bool,
)
    requires
        before.wf(),
        after.wf(),
        has(before, o@),
        after.los == before.los,
        after.is_end_of_satb_or_full_gc == before.is_end_of_satb_or_full_gc,
        large_count(before, o@) <= large_count(after, o@),
        call_ensures(LXRLargeObjectSpace::is_live, (&before, o), was),
        call_ensures(LXRLargeObjectSpace::is_live, (&after, o), is),
    ensures
        was ==> is,
{
}

/// A large object is marked once: the first attempt says that it was not marked exactly if it was not, it is
/// marked from then on, and the next attempt fails and changes no mark. The marks of other pages and all
/// else stay as they are.
#[verifier::spinoff_prover]
pub proof fn law_large_object_is_marked_once(
    first: &mut LXRLargeObjectSpace,
    o: ObjectReference,
    fresh: bool,
    second: &mut LXRLargeObjectSpace,
    again: bool,
    x: int,
)
    requires
        first.wf(),
        has(*first, o@),
        call_ensures(LXRLargeObjectSpace::attempt_mark, (first, o), fresh),
        *second == *final(first),
        call_ensures(LXRLargeObjectSpace::test_and_mark, (second, o), again),
        has(*first, x),
    ensures
        fresh == !large_mark(*old(first), o@),
        large_mark(*final(first), o@),
        page_at(*old(first), x) != page_at(*old(first), o@) ==> large_mark(*final(first), x)
            == large_mark(*old(first), x),
        !again,
        final(second).los.mark_nursery@ == final(first).los.mark_nursery@,
        !fresh ==> final(first).los.mark_nursery@ == old(first).los.mark_nursery@,
        final(first).los.mark_nursery@[page_at(*old(first), o@)] & !3u8 == old(first).los.mark_nursery@[page_at(*old(first), o@)] & !3u8,
        final(first).los.used == old(first).los.used,
        final(first).los.lengths == old(first).los.lengths,
        final(first).los.treadmill == old(first).los.treadmill,
        final(first).los.field_unlog == old(first).los.field_unlog,
        final(first).rc == old(first).rc,
{
    let entry = first.los.mark_nursery@[page_at(*first, o@)];
    let state = first.los.mark_state;
    assert((entry & !3u8 | state) & !3u8 == entry & !3u8) by (bit_vector)
        requires
            state <= 1,
    ;
    assert(first.los.page(o@) == page_at(*first, o@));
    let same = first.los.mark_nursery@.update(page_at(*first, o@), entry);
    assert(same =~= first.los.mark_nursery@);
    let entry_after = final(first).los.mark_nursery@[page_at(*first, o@)];
    assert(final(first).los.mark_nursery@.update(page_at(*first, o@), entry_after)
        =~= final(first).los.mark_nursery@);
}

/// Tracing gives back the object itself, which is marked from then on, and queues it exactly if it was not
/// marked: an object traced twice is queued once.
#[verifier::spinoff_prover]
pub proof fn law_large_object_is_queued_once<Q: ObjectQueue>(
    first: &mut LXRLargeObjectSpace,
    queue: &mut Q,
    o: ObjectReference,
    place: ObjectReference,
    second: &mut LXRLargeObjectSpace,
    later: &mut Q,
    place_again: ObjectReference,
)
    requires
        first.wf(),
        has(*first, o@),
        call_ensures(LXRLargeObjectSpace::trace_object::<Q>, (first, queue, o), place),
        *second == *final(first),
        *later == *final(queue),
        call_ensures(
            LXRLargeObjectSpace::sft_trace_object::<Q>,
            (second, later, o),
            place_again,
        ),
    ensures
        place == o && place_again == o,
        large_mark(*final(first), o@),
        large_mark(*final(second), o@),
        large_mark(*old(first), o@) ==> final(queue).queued() == old(queue).queued(),
        !large_mark(*old(first), o@) ==> final(queue).queued() == old(queue).queued().push(o),
        final(later).queued() == final(queue).queued(),
        final(second).los.used == old(first).los.used,
        final(second).los.treadmill == old(first).los.treadmill,
        final(second).rc == old(first).rc,
{
}

/// At the start of a collection of the full heap, what was marked is not marked any more, and what was not
/// marked is; at the start of another, marks stay. The count of pages given back starts anew.
#[verifier::spinoff_prover]
pub proof fn law_full_collection_unmarks_large_objects(
    space: &mut LXRLargeObjectSpace,
    full_heap: bool,
    a: int,
)
    requires
        space.wf(),
        has(*space, a),
        call_ensures(LXRLargeObjectSpace::prepare, (space, full_heap), ()),
    ensures
        full_heap ==> large_mark(*final(space), a) == !large_mark(*old(space), a),
        !full_heap ==> large_mark(*final(space), a) == large_mark(*old(space), a),
        final(space).los.num_pages_released_lazy == 0,
        final(space).los.used == old(space).los.used,
        final(space).los.lengths == old(space).los.lengths,
        final(space).los.treadmill == old(space).los.treadmill,
        final(space).rc == old(space).rc,
{
    let entry = space.los.mark_nursery@[page_at(*space, a)];
    assert(entry & 1 == 0 || entry & 1 == 1) by (bit_vector);
}

/// A new large object is the last of the new objects and is marked. Where reuse is counted, the counts of
/// the pages that its bytes reach into go up by one, coming round to zero, and no others do.
#[verifier::spinoff_prover]
pub proof fn law_new_large_object_is_recorded(
    space: &mut LXRLargeObjectSpace,
    o: ObjectReference,
    bytes: usize,
    p: int,
)
    requires
        space.wf(),
        has(*space, o@),
        o@ + bytes <= space.los.common.start + space.los.used@.len() * 4096,
        call_ensures(LXRLargeObjectSpace::initialize_object_metadata, (space, o, bytes), ()),
        0 <= p < space.los.used@.len(),
    ensures
        final(space).los.treadmill.alloc_nursery@.len() == old(space).los.treadmill.alloc_nursery@.len() + 1,
        final(space).los.treadmill.alloc_nursery@.drop_last() == old(space).los.treadmill.alloc_nursery@,
        final(space).los.treadmill.alloc_nursery@.last() == o,
        final(space).los.treadmill.mature@ == old(space).los.treadmill.mature@,
        large_mark(*final(space), o@),
        ({
            let was = old(space).los.page_reuse_counts@[p];
            let is = final(space).los.page_reuse_counts@[p];
            let first = page_at(*old(space), o@);
            let reached = p >= first && (p - first) * 4096 < bytes;
            &&& old(space).bump_page_reuse_count && reached ==> is == (was + 1) % 256
            &&& !(old(space).bump_page_reuse_count && reached) ==> is == was
        }),
        final(space).los.used == old(space).los.used,
        final(space).rc == old(space).rc,
{
    let entry = space.los.mark_nursery@[page_at(*space, o@)];
    let state = space.los.mark_state;
    assert((entry & !3u8 | state) & 1 == state) by (bit_vector)
        requires
            state <= 1,
    ;
    assert(space.los.page(o@) == page_at(*space, o@));
    assert(final(space).los.treadmill.alloc_nursery@.drop_last()
        =~= space.los.treadmill.alloc_nursery@);
}

/// An object is selected exactly if it is picked at one of its places.
proof fn lemma_selected_member(
    objects: Seq<ObjectReference>,
    pick: Seq<bool>,
    value: bool,
    n: nat,
    x: ObjectReference,
)
    requires
        n <= objects.len(),
    ensures
        selected(objects, pick, value, n).contains(x) <==> exists|i: int|
            0 <= i < n && pick[i] == value && #[trigger] objects[i] == x,
    decreases n,
{
    let all = selected(objects, pick, value, n);
    if n > 0 {
        lemma_selected_member(objects, pick, value, (n - 1) as nat, x);
        let rest = selected(objects, pick, value, (n - 1) as nat);
        if rest.contains(x) {
            let k = rest.index_of(x);
            assert(all[k] == x);
        }
        if pick[n - 1] == value && objects[n - 1] == x {
            assert(all[all.len() - 1] == x);
        }
        if all.contains(x) {
            let k = all.index_of(x);
            if k < rest.len() {
                assert(rest[k] == x);
            }
        }
    }
}

/// No more objects are selected than there are.
proof fn lemma_selected_len(
    objects: Seq<ObjectReference>,
    pick: Seq<bool>,
    n: nat,
)
    ensures
        selected(objects, pick, true, n).len() + selected(objects, pick, false, n).len() == n,
    decreases n,
{
    if n > 0 {
        lemma_selected_len(objects, pick, (n - 1) as nat);
    }
}

/// What was given back of a space: an object among those given back has no pages any more, its pages are
/// free and their log entries are clear; an allocation of another keeps its pages.
#[verifier::spinoff_prover]
proof fn lemma_given_back(
    before: LXRLargeObjectSpace,
    dead: Seq<ObjectReference>,
    after: LXRLargeObjectSpace,
    p: int,
    w: int,
)
    requires
        before.wf(),
        objects_released(before.los, dead, after.los),
        forall|k: int| 0 <= k < dead.len() ==> has(before, (#[trigger] dead[k])@) && pages_of(
            before,
            dead[k]@,
        ) > 0,
        0 <= p < before.los.used@.len(),
        p * 512 <= w < p * 512 + 512,
    ensures
        forall|k: int|
            #![trigger dead[k]]
            0 <= k < dead.len() && page_belongs(before, dead[k]@, p) ==> !after.los.used@[p]
                && after.los.field_unlog@[w] == 0,
        forall|k: int| #![trigger dead[k]] 0 <= k < dead.len() ==> pages_of(after, dead[k]@) == 0,
        (forall|k: int| #![trigger dead[k]] 0 <= k < dead.len() ==> !page_belongs(before, dead[k]@, p))
            ==> after.los.used@[p] == before.los.used@[p] && after.los.lengths@[p]
            == before.los.lengths@[p] && after.los.field_unlog@[w] == before.los.field_unlog@[w],
        after.los.common == before.los.common,
        after.los.mark_nursery == before.los.mark_nursery,
        after.los.mark_state == before.los.mark_state,
        after.los.page_reuse_counts == before.los.page_reuse_counts,
{
    assert forall|k: int|
        #![trigger dead[k]]
        0 <= k < dead.len() && page_belongs(before, dead[k]@, p) implies !after.los.used@[p]
        && after.los.field_unlog@[w] == 0 by {
        assert(before.los.page(dead[k]@) == page_at(before, dead[k]@));
        assert(page_of_any(before.los, dead, p));
        assert(w / 512 == p);
    }
    assert forall|k: int| #![trigger dead[k]] 0 <= k < dead.len() implies pages_of(after, dead[k]@)
        == 0 by {
        let q = before.los.page(dead[k]@);
        assert(q == page_at(before, dead[k]@));
        assert(0 <= q < before.los.used@.len());
        assert(starts_any(before.los, dead, q));
    }
    if forall|k: int| #![trigger dead[k]] 0 <= k < dead.len() ==> !page_belongs(before, dead[k]@, p) {
        if page_of_any(before.los, dead, p) {
            let k = choose|k: int|
                0 <= k < dead.len() && before.los.page((#[trigger] dead[k])@) <= p < before.los.page(
                    dead[k]@,
                ) + before.los.lengths@[before.los.page(dead[k]@)];
            assert(page_belongs(before, dead[k]@, p));
        }
        if starts_any(before.los, dead, p) {
            let k = choose|k: int|
                0 <= k < dead.len() && before.los.page((#[trigger] dead[k])@) == p;
            assert(page_belongs(before, dead[k]@, p));
        }
        assert(w / 512 == p);
    }
}

/// At the end of a collection, a new large object that has a count becomes an old one, and keeps its pages;
/// one without loses them: they are free, and stores to them are not to be logged.
#[verifier::spinoff_prover]
pub proof fn law_new_large_objects_live_by_their_counts(
    space: &mut LXRLargeObjectSpace,
    full_heap: bool,
    i: int,
    p: int,
    w: int,
)
    requires
        space.wf(),
        call_ensures(LXRLargeObjectSpace::release, (space, full_heap), ()),
        0 <= i < space.los.treadmill.alloc_nursery@.len(),
        0 <= p < space.los.used@.len(),
        p * 512 <= w < p * 512 + 512,
    ensures
        ({
            let o = old(space).los.treadmill.alloc_nursery@[i];
            &&& large_count(*old(space), o@) > 0 ==> {
                &&& final(space).los.treadmill.mature@.contains(o)
                &&& pages_of(*final(space), o@) == pages_of(*old(space), o@)
                &&& page_belongs(*old(space), o@, p) ==> final(space).los.used@[p]
                    && final(space).los.field_unlog@[w] == old(space).los.field_unlog@[w]
            }
            &&& large_count(*old(space), o@) == 0 ==> {
                &&& !final(space).los.treadmill.mature@.contains(o)
                &&& pages_of(*final(space), o@) == 0
                &&& page_belongs(*old(space), o@, p) ==> !final(space).los.used@[p]
                    && final(space).los.field_unlog@[w] == 0
            }
        }),
{
    let before = *space;
    let after = *final(space);
    let nursery = before.los.treadmill.alloc_nursery@;
    let pick = survivors(before);
    let dead = selected(nursery, pick, false, nursery.len());
    let o = nursery[i];
    let all = before.los.treadmill.all();
    lemma_new_dead_are_allocated(before);
    lemma_given_back(before, dead, after, p, w);
    lemma_selected_member(nursery, pick, true, nursery.len(), o);
    lemma_selected_member(nursery, pick, false, nursery.len(), o);
    assert(all[i] == o);
    assert(before.los.allocated(all[i]));
    assert(before.los.page(o@) == page_at(before, o@));
    if large_count(before, o@) > 0 {
        assert(pick[i]);
        assert(after.los.treadmill.mature@.contains(o)) by {
            let kept = selected(nursery, pick, true, nursery.len());
            let k = kept.index_of(o);
            let m = before.los.treadmill.mature@.len() as int;
            assert(after.los.treadmill.mature@[m + k] == o);
        }
        let q = page_at(before, o@);
        lemma_apart_from_the_dead(before, i, q);
        lemma_given_back(before, dead, after, q, q * 512);
        if page_belongs(before, o@, p) {
            lemma_apart_from_the_dead(before, i, p);
            assert(before.los.lengths@[q] > 0);
            assert(before.los.used@[p]);
        }
    } else {
        assert(!pick[i]);
        assert(dead.contains(o));
        let k = dead.index_of(o);
        assert(dead[k] == o);
        let kept = selected(nursery, pick, true, nursery.len());
        if after.los.treadmill.mature@.contains(o) {
            let j = after.los.treadmill.mature@.index_of(o);
            let m = before.los.treadmill.mature@.len() as int;
            if j < m {
                assert(all[nursery.len() + j] == o);
                assert(before.los.page(all[i]@) != before.los.page(all[nursery.len() + j]@));
            } else {
                assert(kept[j - m] == o);
                assert(kept.contains(o));
                let j2 = choose|j2: int|
                    0 <= j2 < nursery.len() && pick[j2] == true && #[trigger] nursery[j2] == o;
                assert(all[j2] == o && j2 != i);
            }
        }
    }
}

/// The new objects without a count are allocated.
proof fn lemma_new_dead_are_allocated(before: LXRLargeObjectSpace)
    requires
        before.wf(),
    ensures
        ({
            let nursery = before.los.treadmill.alloc_nursery@;
            let dead = selected(nursery, survivors(before), false, nursery.len());
            forall|k: int|
                0 <= k < dead.len() ==> has(before, (#[trigger] dead[k])@) && pages_of(
                    before,
                    dead[k]@,
                ) > 0
        }),
{
    let nursery = before.los.treadmill.alloc_nursery@;
    let pick = survivors(before);
    let dead = selected(nursery, pick, false, nursery.len());
    let all = before.los.treadmill.all();
    assert forall|k: int| 0 <= k < dead.len() implies has(before, (#[trigger] dead[k])@) && pages_of(
        before,
        dead[k]@,
    ) > 0 by {
        lemma_selected_member(nursery, pick, false, nursery.len(), dead[k]);
        assert(dead.contains(dead[k]));
        let j = choose|j: int|
            0 <= j < nursery.len() && pick[j] == false && #[trigger] nursery[j] == dead[k];
        assert(all[j] == dead[k]);
        assert(before.los.allocated(all[j]));
        assert(before.los.page(dead[k]@) == page_at(before, dead[k]@));
    }
}

/// A page of an object of the treadmill that is not among the new objects without a count is not a page of
/// one of these.
#[verifier::spinoff_prover]
proof fn lemma_apart_from_the_dead(before: LXRLargeObjectSpace, i: int, p: int)
    requires
        before.wf(),
        0 <= i < before.los.treadmill.all().len(),
        i < before.los.treadmill.alloc_nursery@.len() ==> large_count(
            before,
            before.los.treadmill.all()[i]@,
        ) > 0,
        page_belongs(before, before.los.treadmill.all()[i]@, p),
    ensures
        ({
            let nursery = before.los.treadmill.alloc_nursery@;
            let dead = selected(nursery, survivors(before), false, nursery.len());
            forall|k: int|
                #![trigger dead[k]]
                0 <= k < dead.len() ==> !page_belongs(before, dead[k]@, p)
        }),
{
    let nursery = before.los.treadmill.alloc_nursery@;
    let pick = survivors(before);
    let dead = selected(nursery, pick, false, nursery.len());
    let all = before.los.treadmill.all();
    let o = all[i];
    assert forall|k: int| #![trigger dead[k]] 0 <= k < dead.len() implies !page_belongs(
        before,
        dead[k]@,
        p,
    ) by {
        lemma_selected_member(nursery, pick, false, nursery.len(), dead[k]);
        assert(dead.contains(dead[k]));
        let j = choose|j: int|
            0 <= j < nursery.len() && pick[j] == false && #[trigger] nursery[j] == dead[k];
        assert(all[j] == dead[k]);
        assert(j != i);
        lemma_objects_lie_apart(before, i, j, p);
    }
}

/// Two objects of the treadmill have no page in common.
proof fn lemma_objects_lie_apart(before: LXRLargeObjectSpace, i: int, j: int, p: int)
    requires
        before.wf(),
        0 <= i < before.los.treadmill.all().len(),
        0 <= j < before.los.treadmill.all().len(),
        i != j,
        page_belongs(before, before.los.treadmill.all()[i]@, p),
    ensures
        !page_belongs(before, before.los.treadmill.all()[j]@, p),
{
    let all = before.los.treadmill.all();
    assert(before.los.allocated(all[i]) && before.los.allocated(all[j]));
    let a = before.los.page(all[i]@);
    let b = before.los.page(all[j]@);
    assert(a == page_at(before, all[i]@) && b == page_at(before, all[j]@));
    assert(a != b) by {
        if i < j {
            assert(before.los.page(all[i]@) != before.los.page(all[j]@));
        } else {
            assert(before.los.page(all[j]@) != before.los.page(all[i]@));
        }
    }
    assert(before.los.lengths@[a] > 0 && before.los.lengths@[b] > 0);
    if a < b {
        assert(a + before.los.lengths@[a] <= b);
    } else {
        assert(b + before.los.lengths@[b] <= a);
    }
}

/// Going through the new objects leaves none, keeps the old ones in their order before the new ones that
/// became old, makes nothing else old, and touches no page of an old object; counts and marks stay.
#[verifier::spinoff_prover]
pub proof fn law_old_large_objects_are_left_alone(
    space: &mut LXRLargeObjectSpace,
    j: int,
    x: ObjectReference,
    p: int,
    w: int,
)
    requires
        space.wf(),
        call_ensures(LXRLargeObjectSpace::release_rc_nursery_objects, (space,), ()),
        0 <= p < space.los.used@.len(),
        p * 512 <= w < p * 512 + 512,
    ensures
        final(space).los.treadmill.alloc_nursery@.len() == 0,
        0 <= j < old(space).los.treadmill.mature@.len() ==> {
            let o = old(space).los.treadmill.mature@[j];
            &&& final(space).los.treadmill.mature@[j] == o
            &&& pages_of(*final(space), o@) == pages_of(*old(space), o@)
            &&& page_belongs(*old(space), o@, p) ==> final(space).los.used@[p]
                && final(space).los.field_unlog@[w] == old(space).los.field_unlog@[w]
        },
        final(space).los.treadmill.mature@.len() <= old(space).los.treadmill.mature@.len() + old(space).los.treadmill.alloc_nursery@.len(),
        final(space).los.treadmill.mature@.contains(x) ==> old(space).los.treadmill.mature@.contains(x) || (old(space).los.treadmill.alloc_nursery@.contains(x) && large_count(*old(space), x@) > 0),
        !old(space).los.used@[p] ==> !final(space).los.used@[p],
        final(space).rc == old(space).rc,
        final(space).los.mark_nursery == old(space).los.mark_nursery,
        final(space).los.mark_state == old(space).los.mark_state,
        final(space).los.num_pages_released_lazy == old(space).los.num_pages_released_lazy,
{
    let before = *space;
    let after = *final(space);
    let nursery = before.los.treadmill.alloc_nursery@;
    let mature = before.los.treadmill.mature@;
    let pick = survivors(before);
    let dead = selected(nursery, pick, false, nursery.len());
    let kept = selected(nursery, pick, true, nursery.len());
    let all = before.los.treadmill.all();
    lemma_new_dead_are_allocated(before);
    lemma_given_back(before, dead, after, p, w);
    lemma_selected_len(nursery, pick, nursery.len());
    lemma_selected_member(nursery, pick, true, nursery.len(), x);
    if 0 <= j < mature.len() {
        let o = mature[j];
        let i = nursery.len() + j;
        assert(all[i] == o);
        assert(before.los.allocated(all[i]));
        let q = page_at(before, o@);
        assert(before.los.page(o@) == q);
        assert(before.los.lengths@[q] > 0);
        lemma_apart_from_the_dead(before, i, q);
        lemma_given_back(before, dead, after, q, q * 512);
        if page_belongs(before, o@, p) {
            lemma_apart_from_the_dead(before, i, p);
            assert(before.los.used@[p]);
        }
    }
    if after.los.treadmill.mature@.contains(x) {
        let k = after.los.treadmill.mature@.index_of(x);
        if k < mature.len() {
            assert(mature[k] == x);
        } else {
            assert(kept[k - mature.len()] == x);
            assert(kept.contains(x));
            let j2 = choose|j2: int|
                0 <= j2 < nursery.len() && pick[j2] == true && #[trigger] nursery[j2] == x;
            assert(nursery[j2] == x);
        }
    }
}

/// Pages are given out at the first place where so many are free in a row: all of them were free and are
/// not any more, no other page changes, and no such place comes earlier. Nothing is given out, and nothing
/// changes, exactly if there is no such place.
#[verifier::spinoff_prover]
pub proof fn law_pages_given_out_were_free(
    space: &mut LXRLargeObjectSpace,
    pages: usize,
    start: Address,
    p: int,
    q: int,
)
    requires
        space.wf(),
        pages > 0,
        call_ensures(LXRLargeObjectSpace::allocate_pages, (space, pages), start),
        0 <= p < space.los.used@.len(),
        0 <= q,
        q + pages <= space.los.used@.len(),
        forall|i: int| q <= i < q + pages ==> !#[trigger] space.los.used@[i],
    ensures
        start@ != 0,
        ({
            let first = page_at(*old(space), start@);
            let given = first <= p < first + pages;
            &&& 0 <= first <= q
            &&& start@ == old(space).los.common.start + first * 4096
            &&& given ==> !old(space).los.used@[p] && final(space).los.used@[p]
            &&& !given ==> final(space).los.used@[p] == old(space).los.used@[p]
            &&& pages_of(*final(space), start@) == pages
            &&& p != first ==> final(space).los.lengths@[p] == old(space).los.lengths@[p]
        }),
        final(space).los.treadmill == old(space).los.treadmill,
        final(space).rc == old(space).rc,
        final(space).los.mark_nursery == old(space).los.mark_nursery,
{
    assert(run_free(space.los.used@, q, pages as int));
}

/// Whether one of the `n` pages from page `q` on is in use.
pub open spec fn taken(space: LXRLargeObjectSpace, q: int, n: int) -> bool {
    exists|i: int| q <= i < q + n && #[trigger] space.los.used@[i]
}

/// Where no place has so many free pages in a row, none are given out and nothing changes.
#[verifier::spinoff_prover]
pub proof fn law_no_pages_without_a_place(
    space: &mut LXRLargeObjectSpace,
    pages: usize,
    start: Address,
)
    requires
        space.wf(),
        pages > 0,
        call_ensures(LXRLargeObjectSpace::allocate_pages, (space, pages), start),
        forall|q: int|
            0 <= q && q + pages <= space.los.used@.len() ==> #[trigger] taken(
                *space,
                q,
                pages as int,
            ),
    ensures
        start@ == 0,
        *final(space) == *old(space),
{
    assert forall|q: int| !run_free(space.los.used@, q, pages as int) by {
        if run_free(space.los.used@, q, pages as int) {
            assert(taken(*space, q, pages as int));
            let i = choose|i: int| q <= i < q + pages && #[trigger] space.los.used@[i];
            assert(!space.los.used@[i]);
        }
    }
}

/// Pages given out one after the other do not overlap.
#[verifier::spinoff_prover]
pub proof fn law_allocations_lie_apart(
    first: &mut LXRLargeObjectSpace,
    pages: usize,
    start: Address,
    second: &mut LXRLargeObjectSpace,
    more: usize,
    next: Address,
)
    requires
        first.wf(),
        pages > 0,
        call_ensures(LXRLargeObjectSpace::allocate_pages, (first, pages), start),
        *second == *final(first),
        more > 0,
        call_ensures(LXRLargeObjectSpace::allocate_pages, (second, more), next),
        start@ != 0,
        next@ != 0,
    ensures
        next@ >= start@ + pages * 4096 || start@ >= next@ + more * 4096,
{
    let p = first.los.page(start@);
    let q = second.los.page(next@);
    assert(run_free(first.los.used@, p, pages as int));
    assert(run_free(second.los.used@, q, more as int));
    if p <= q < p + pages {
        assert(!second.los.used@[q]);
    }
    if q <= p < q + more {
        assert(!second.los.used@[p]);
    }
}

/// Pages that are given back can be had again.
#[verifier::spinoff_prover]
pub proof fn law_pages_given_back_can_be_had_again(
    first: &mut LXRLargeObjectSpace,
    start: Address,
    second: &mut LXRLargeObjectSpace,
    pages: usize,
    next: Address,
)
    requires
        first.wf(),
        has(*first, start@),
        pages == pages_of(*first, start@),
        pages > 0,
        call_ensures(LXRLargeObjectSpace::release_multiple_pages, (first, start), ()),
        *second == *final(first),
        call_ensures(LXRLargeObjectSpace::allocate_pages, (second, pages), next),
    ensures
        pages_of(*final(first), start@) == 0,
        next@ != 0,
        next@ <= start@,
{
    let p = page_at(*first, start@);
    assert(first.los.page(start@) == p);
    assert(run_free(final(first).los.used@, p, pages as int));
}

/// Giving back an allocation or an object frees its pages and no others. The log entries of an object's pages
/// are cleared.
#[verifier::spinoff_prover]
pub proof fn law_only_its_pages_are_given_back(
    space: &mut LXRLargeObjectSpace,
    start: Address,
    other: &mut LXRLargeObjectSpace,
    o: ObjectReference,
    pages: usize,
    p: int,
    w: int,
)
    requires
        space.wf(),
        has(*space, start@),
        call_ensures(LXRLargeObjectSpace::release_multiple_pages, (space, start), ()),
        other.wf(),
        has(*other, o@),
        call_ensures(LXRLargeObjectSpace::release_object, (other, o), pages),
        0 <= p < space.los.used@.len(),
        p < other.los.used@.len(),
        p * 512 <= w < p * 512 + 512,
    ensures
        page_belongs(*old(space), start@, p) ==> !final(space).los.used@[p],
        !page_belongs(*old(space), start@, p) ==> final(space).los.used@[p] == old(space).los.used@[p],
        final(space).los.treadmill == old(space).los.treadmill,
        pages == pages_of(*old(other), o@),
        page_belongs(*old(other), o@, p) ==> !final(other).los.used@[p] && final(other).los.field_unlog@[w] == 0,
        !page_belongs(*old(other), o@, p) ==> final(other).los.used@[p] == old(other).los.used@[p]
            && final(other).los.field_unlog@[w] == old(other).los.field_unlog@[w],
        pages_of(*final(other), o@) == 0,
        final(other).los.treadmill == old(other).los.treadmill,
        final(other).rc == old(other).rc,
{
    assert(space.los.page(start@) == page_at(*space, start@));
    assert(other.los.page(o@) == page_at(*other, o@));
}

/// How many of the pages are in use.
pub open spec fn used_pages(used: Seq<bool>) -> nat
    decreases used.len(),
{
    if used.len() == 0 {
        0
    } else {
        used_pages(used.drop_last()) + if used.last() {
            1nat
        } else {
            0nat
        }
    }
}

/// Freeing one page that is in use.
proof fn lemma_one_page_less(used: Seq<bool>, p: int)
    requires
        0 <= p < used.len(),
        used[p],
    ensures
        used_pages(used.update(p, false)) + 1 == used_pages(used),
    decreases used.len(),
{
    let now = used.update(p, false);
    if p == used.len() - 1 {
        assert(now.drop_last() =~= used.drop_last());
    } else {
        lemma_one_page_less(used.drop_last(), p);
        assert(now.drop_last() =~= used.drop_last().update(p, false));
    }
}

/// Freeing `n` pages in a row that are all in use.
proof fn lemma_pages_less(used: Seq<bool>, p: int, n: nat, after: Seq<bool>)
    requires
        0 <= p,
        p + n <= used.len(),
        forall|i: int| p <= i < p + n ==> #[trigger] used[i],
        after.len() == used.len(),
        forall|i: int|
            0 <= i < used.len() ==> #[trigger] after[i] == (used[i] && !(p <= i < p + n)),
    ensures
        used_pages(after) + n == used_pages(used),
    decreases n,
{
    if n == 0 {
        assert(after =~= used);
    } else {
        let middle = used.update(p + n - 1, false);
        lemma_one_page_less(used, p + n - 1);
        lemma_pages_less(middle, p, (n - 1) as nat, after);
    }
}

/// The pages given back for the first objects of `dead` are those that are not in use any more, and as many
/// are counted.
#[verifier::spinoff_prover]
proof fn lemma_pages_counted(
    before: LXRLargeObjectSpace,
    dead: Seq<ObjectReference>,
    count: usize,
    after: Seq<bool>,
)
    requires
        before.wf(),
        forall|k: int| 0 <= k < dead.len() ==> before.los.allocated(#[trigger] dead[k]),
        forall|k: int, l: int|
            #![trigger dead[k], dead[l]]
            0 <= k < l < dead.len() ==> before.los.page(dead[k]@) != before.los.page(dead[l]@),
        after.len() == before.los.used@.len(),
        forall|i: int|
            0 <= i < after.len() ==> #[trigger] after[i] == (before.los.used@[i] && !page_of_any(
                before.los,
                dead,
                i,
            )),
        count + used_pages(before.los.used@) <= usize::MAX,
    ensures
        used_pages(after) <= used_pages(before.los.used@),
        lazily_released(count, before.los, dead) == count + (used_pages(before.los.used@)
            - used_pages(after)),
    decreases dead.len(),
{
    if dead.len() == 0 {
        assert(after =~= before.los.used@);
    } else {
        let fewer = dead.drop_last();
        let o = dead.last();
        let last = dead.len() - 1;
        let p = before.los.page(o@);
        let n = before.los.lengths@[p];
        let middle = Seq::new(
            before.los.used@.len(),
            |i: int| before.los.used@[i] && !page_of_any(before.los, fewer, i),
        );
        assert forall|k: int| 0 <= k < fewer.len() implies before.los.allocated(
            #[trigger] fewer[k],
        ) by {
            assert(fewer[k] == dead[k]);
        }
        assert forall|k: int, l: int|
            #![trigger fewer[k], fewer[l]]
            0 <= k < l < fewer.len() implies before.los.page(fewer[k]@) != before.los.page(
            fewer[l]@,
        ) by {
            assert(fewer[k] == dead[k] && fewer[l] == dead[l]);
        }
        lemma_pages_counted(before, fewer, count, middle);
        assert(before.los.allocated(dead[last]));
        assert forall|i: int| p <= i < p + n implies #[trigger] middle[i] by {
            assert(before.los.lengths@[p] == n);
            assert(before.los.used@[i]);
            if page_of_any(before.los, fewer, i) {
                let k = choose|k: int|
                    0 <= k < fewer.len() && before.los.page((#[trigger] fewer[k])@) <= i
                        < before.los.page(fewer[k]@) + before.los.lengths@[before.los.page(
                        fewer[k]@,
                    )];
                assert(fewer[k] == dead[k]);
                let q = before.los.page(dead[k]@);
                assert(q != p) by {
                    assert(before.los.page(dead[k]@) != before.los.page(dead[last]@));
                }
                assert(before.los.allocated(dead[k]));
                assert(before.los.lengths@[q] > 0 && before.los.lengths@[p] > 0);
                if q < p {
                    assert(q + before.los.lengths@[q] <= p);
                } else {
                    assert(p + before.los.lengths@[p] <= q);
                }
            }
        }
        assert forall|i: int| 0 <= i < middle.len() implies #[trigger] after[i] == (middle[i] && !(p
            <= i < p + n)) by {
            if page_of_any(before.los, dead, i) {
                let k = choose|k: int|
                    0 <= k < dead.len() && before.los.page((#[trigger] dead[k])@) <= i
                        < before.los.page(dead[k]@) + before.los.lengths@[before.los.page(dead[k]@)];
                if k < last {
                    assert(fewer[k] == dead[k]);
                }
            }
            if page_of_any(before.los, fewer, i) {
                let k = choose|k: int|
                    0 <= k < fewer.len() && before.los.page((#[trigger] fewer[k])@) <= i
                        < before.los.page(fewer[k]@) + before.los.lengths@[before.los.page(
                        fewer[k]@,
                    )];
                assert(fewer[k] == dead[k]);
            }
            if p <= i < p + n {
                assert(dead[last] == o);
                assert(page_of_any(before.los, dead, i));
            }
        }
        assert(p + before.los.lengths@[p] <= before.los.used@.len());
        lemma_pages_less(middle, p, n as nat, after);
    }
}

/// An old object that is freed is one no more and loses its pages, which are counted as given back; the other
/// old objects stay, with theirs. What is not an old object is not freed, and nothing changes then.
#[verifier::spinoff_prover]
pub proof fn law_freed_object_loses_its_pages(
    space: &mut LXRLargeObjectSpace,
    o: ObjectReference,
    x: ObjectReference,
    p: int,
)
    requires
        space.wf(),
        call_ensures(LXRLargeObjectSpace::rc_free, (space, o), ()),
        0 <= p < space.los.used@.len(),
    ensures
        !old(space).los.treadmill.mature@.contains(o) ==> *final(space) == *old(space),
        old(space).los.treadmill.mature@.contains(o) ==> {
            &&& final(space).los.treadmill.mature@.len() + 1 == old(space).los.treadmill.mature@.len()
            &&& !final(space).los.treadmill.mature@.contains(o)
            &&& x != o ==> final(space).los.treadmill.mature@.contains(x) == old(space).los.treadmill.mature@.contains(x)
            &&& final(space).los.treadmill.alloc_nursery == old(space).los.treadmill.alloc_nursery
            &&& pages_of(*final(space), o@) == 0
            &&& page_belongs(*old(space), o@, p) ==> !final(space).los.used@[p]
            &&& !page_belongs(*old(space), o@, p) ==> final(space).los.used@[p] == old(space).los.used@[p]
            &&& final(space).rc == old(space).rc
            &&& old(space).los.num_pages_released_lazy + pages_of(*old(space), o@) <= usize::MAX
                ==> final(space).los.num_pages_released_lazy == old(space).los.num_pages_released_lazy + pages_of(*old(space), o@)
        },
{
    let before = *space;
    let after = *final(space);
    let was = before.los.treadmill.mature@;
    let now = after.los.treadmill.mature@;
    let all = before.los.treadmill.all();
    let n = before.los.treadmill.alloc_nursery@.len() as int;
    if was.contains(o) {
        let k = choose|k: int| 0 <= k < was.len() && #[trigger] was[k] == o && now == was.remove(k);
        assert(all[n + k] == o);
        assert(before.los.allocated(all[n + k]));
        assert(before.los.page(o@) == page_at(before, o@));
        let dead = seq![o];
        assert(dead[0] == o);
        lemma_given_back(before, dead, after, p, p * 512);
        if now.contains(o) {
            let j = now.index_of(o);
            let m = if j < k {
                j
            } else {
                j + 1
            };
            assert(was[m] == o);
            assert(all[n + m] == o);
        }
        if was.contains(x) && x != o {
            let j = was.index_of(x);
            assert(now[if j < k {
                j
            } else {
                j - 1
            }] == x);
        }
        if now.contains(x) {
            let j = now.index_of(x);
            assert(was[if j < k {
                j
            } else {
                j + 1
            }] == x);
        }
    }
}

/// Going through the old objects once a trace is complete: one that is found alive stays old and keeps its
/// pages and its count; one that is found dead
/// is old no more, has no count and loses its pages. As many pages are counted as given back as are free
/// that were not.
#[verifier::spinoff_prover]
pub proof fn law_old_large_objects_live_by_the_trace<F: Fn(ObjectReference) -> bool>(
    space: &mut LXRLargeObjectSpace,
    is_live: &F,
    i: int,
    p: int,
    w: int,
)
    requires
        space.wf(),
        call_ensures(
            LXRLargeObjectSpace::sweep_rc_mature_objects_after_satb::<F>,
            (space, is_live),
            (),
        ),
        0 <= i < space.los.treadmill.mature@.len(),
        0 <= p < space.los.used@.len(),
        p * 512 <= w < p * 512 + 512,
    ensures
        ({
            let o = old(space).los.treadmill.mature@[i];
            &&& (forall|b: bool| call_ensures(*is_live, (o,), b) ==> b) ==> {
                &&& final(space).los.treadmill.mature@.contains(o)
                &&& pages_of(*final(space), o@) == pages_of(*old(space), o@)
                &&& page_belongs(*old(space), o@, p) ==> final(space).los.used@[p]
                    && final(space).los.field_unlog@[w] == old(space).los.field_unlog@[w]
                &&& large_count(*final(space), o@) == large_count(*old(space), o@)
            }
            &&& (forall|b: bool| call_ensures(*is_live, (o,), b) ==> !b) ==> {
                &&& !final(space).los.treadmill.mature@.contains(o)
                &&& pages_of(*final(space), o@) == 0
                &&& page_belongs(*old(space), o@, p) ==> !final(space).los.used@[p]
                    && final(space).los.field_unlog@[w] == 0
                &&& large_count(*final(space), o@) == 0
            }
        }),
        final(space).los.treadmill.alloc_nursery@ == old(space).los.treadmill.alloc_nursery@,
        old(space).los.num_pages_released_lazy + used_pages(old(space).los.used@) <= usize::MAX
            ==> final(space).los.num_pages_released_lazy == old(space).los.num_pages_released_lazy
            + (used_pages(old(space).los.used@) - used_pages(final(space).los.used@)),
{
    let before = *space;
    let after = *final(space);
    let mature = before.los.treadmill.mature@;
    let verdicts = choose|verdicts: Seq<bool>|
        {
            &&& verdicts.len() == mature.len()
            &&& forall|i: int|
                0 <= i < verdicts.len() ==> call_ensures(*is_live, (mature[i],), verdicts[i])
            &&& #[trigger] mature_released(before, verdicts, after)
        };
    let o = mature[i];
    assert(call_ensures(*is_live, (o,), verdicts[i]));
    lemma_old_objects_swept(before, verdicts, after, i, p, w);
}

/// What becomes of one old object by the verdict on it.
#[verifier::spinoff_prover]
proof fn lemma_old_objects_swept(
    before: LXRLargeObjectSpace,
    verdicts: Seq<bool>,
    after: LXRLargeObjectSpace,
    i: int,
    p: int,
    w: int,
)
    requires
        before.wf(),
        verdicts.len() == before.los.treadmill.mature@.len(),
        mature_released(before, verdicts, after),
        0 <= i < verdicts.len(),
        0 <= p < before.los.used@.len(),
        p * 512 <= w < p * 512 + 512,
    ensures
        ({
            let o = before.los.treadmill.mature@[i];
            &&& verdicts[i] ==> {
                &&& after.los.treadmill.mature@.contains(o)
                &&& pages_of(after, o@) == pages_of(before, o@)
                &&& page_belongs(before, o@, p) ==> after.los.used@[p] && after.los.field_unlog@[w]
                    == before.los.field_unlog@[w]
                &&& large_count(after, o@) == large_count(before, o@)
            }
            &&& !verdicts[i] ==> {
                &&& !after.los.treadmill.mature@.contains(o)
                &&& pages_of(after, o@) == 0
                &&& page_belongs(before, o@, p) ==> !after.los.used@[p]
                    && after.los.field_unlog@[w] == 0
                &&& large_count(after, o@) == 0
            }
        }),
        before.los.num_pages_released_lazy + used_pages(before.los.used@) <= usize::MAX
            ==> after.los.num_pages_released_lazy == before.los.num_pages_released_lazy + (
        used_pages(before.los.used@) - used_pages(after.los.used@)),
{
    let mature = before.los.treadmill.mature@;
    let dead = selected(mature, verdicts, false, mature.len());
    let all = before.los.treadmill.all();
    let n = before.los.treadmill.alloc_nursery@.len() as int;
    let o = mature[i];
    assert(all[n + i] == o);
    assert(before.los.allocated(all[n + i]));
    let q = page_at(before, o@);
    assert(before.los.page(o@) == q);
    lemma_selected_apart(before, verdicts, mature.len());
    assert forall|k: int| 0 <= k < dead.len() implies has(before, (#[trigger] dead[k])@) && pages_of(
        before,
        dead[k]@,
    ) > 0 by {
        assert(before.los.allocated(dead[k]));
        assert(before.los.page(dead[k]@) == page_at(before, dead[k]@));
    }
    lemma_given_back(before, dead, after, p, w);
    lemma_given_back(before, dead, after, q, q * 512);
    lemma_selected_member(mature, verdicts, true, mature.len(), o);
    lemma_selected_member(mature, verdicts, false, mature.len(), o);
    if verdicts[i] {
        assert forall|k: int, r: int|
            #![trigger dead[k], page_belongs(before, o@, r)]
            0 <= k < dead.len() && page_belongs(before, o@, r) implies !page_belongs(
            before,
            dead[k]@,
            r,
        ) by {
            let j = lemma_place_of_selected(before, verdicts, k);
            assert(j != i);
            assert(all[n + j] == dead[k]);
            lemma_objects_lie_apart(before, n + i, n + j, r);
        }
        assert(page_belongs(before, o@, q));
        assert forall|k: int| 0 <= k < dead.len() implies before.rc.granule((#[trigger] dead[k])@)
            != before.rc.granule(o@) by {
            assert(!page_belongs(before, dead[k]@, q));
            assert(before.los.allocated(dead[k]));
            let a = dead[k]@;
            if before.rc.granule(a) == before.rc.granule(o@) {
                assert(page_at(before, a) == ((a - before.rc.start) / 16) / 256);
                assert(q == ((o@ - before.rc.start) / 16) / 256);
                assert(page_belongs(before, a, q)) by {
                    assert(pages_of(before, a) > 0);
                }
            }
        }
        if page_belongs(before, o@, p) {
            assert(before.los.used@[p]);
        }
    } else {
        assert(dead.contains(o));
        let k = dead.index_of(o);
        assert(dead[k] == o);
        if after.los.treadmill.mature@.contains(o) {
            let j = choose|j: int|
                0 <= j < mature.len() && verdicts[j] == true && #[trigger] mature[j] == o;
            assert(all[n + j] == o && j != i);
        }
    }
    if before.los.num_pages_released_lazy + used_pages(before.los.used@) <= usize::MAX {
        lemma_pages_counted(before, dead, before.los.num_pages_released_lazy, after.los.used@);
    }
}

/// Where one of the old objects found dead is among the old objects.
proof fn lemma_place_of_selected(
    before: LXRLargeObjectSpace,
    verdicts: Seq<bool>,
    k: int,
) -> (j: int)
    requires
        verdicts.len() == before.los.treadmill.mature@.len(),
        ({
            let mature = before.los.treadmill.mature@;
            0 <= k < selected(mature, verdicts, false, mature.len()).len()
        }),
    ensures
        0 <= j < verdicts.len(),
        !verdicts[j],
        ({
            let mature = before.los.treadmill.mature@;
            mature[j] == selected(mature, verdicts, false, mature.len())[k]
        }),
{
    let mature = before.los.treadmill.mature@;
    let dead = selected(mature, verdicts, false, mature.len());
    lemma_selected_member(mature, verdicts, false, mature.len(), dead[k]);
    assert(dead.contains(dead[k]));
    choose|j: int|
        0 <= j < mature.len() && verdicts[j] == false && #[trigger] mature[j] == dead[k]
}

/// The old objects found dead are allocated, each on pages of its own.
#[verifier::spinoff_prover]
proof fn lemma_selected_apart(before: LXRLargeObjectSpace, verdicts: Seq<bool>, n: nat)
    requires
        before.wf(),
        n <= before.los.treadmill.mature@.len(),
        verdicts.len() == before.los.treadmill.mature@.len(),
    ensures
        ({
            let dead = selected(before.los.treadmill.mature@, verdicts, false, n);
            &&& forall|k: int| 0 <= k < dead.len() ==> before.los.allocated(#[trigger] dead[k])
            &&& forall|k: int, l: int|
                #![trigger dead[k], dead[l]]
                0 <= k < l < dead.len() ==> before.los.page(dead[k]@) != before.los.page(dead[l]@)
        }),
    decreases n,
{
    let mature = before.los.treadmill.mature@;
    let all = before.los.treadmill.all();
    let m = before.los.treadmill.alloc_nursery@.len() as int;
    let dead = selected(mature, verdicts, false, n);
    if n > 0 {
        let last = n - 1;
        lemma_selected_apart(before, verdicts, last as nat);
        let rest = selected(mature, verdicts, false, last as nat);
        assert(all[m + last] == mature[last]);
        assert(before.los.allocated(all[m + last]));
        if !verdicts[last] {
            assert forall|k: int| 0 <= k < dead.len() implies before.los.allocated(
                #[trigger] dead[k],
            ) by {
                if k < rest.len() {
                    assert(dead[k] == rest[k]);
                }
            }
            assert forall|k: int, l: int|
                #![trigger dead[k], dead[l]]
                0 <= k < l < dead.len() implies before.los.page(dead[k]@) != before.los.page(
                dead[l]@,
            ) by {
                assert(dead[k] == rest[k]);
                if l < rest.len() {
                    assert(dead[l] == rest[l]);
                } else {
                    lemma_selected_member(mature, verdicts, false, last as nat, rest[k]);
                    assert(rest.contains(rest[k]));
                    let j = choose|j: int|
                        0 <= j < last && verdicts[j] == false && #[trigger] mature[j] == rest[k];
                    assert(all[m + j] == rest[k]);
                    assert(before.los.page(all[m + j]@) != before.los.page(all[m + last]@));
                }
            }
        }
    }
}

/// Log entries: all of them are set, or all cleared, and nothing else changes.
#[verifier::spinoff_prover]
pub proof fn law_all_large_log_bits_are_set_or_cleared(
    setting: &mut LXRLargeObjectSpace,
    clearing: &mut LXRLargeObjectSpace,
    w: int,
)
    requires
        setting.wf(),
        clearing.wf(),
        call_ensures(LXRLargeObjectSpace::set_side_log_bits, (setting,), ()),
        call_ensures(LXRLargeObjectSpace::clear_side_log_bits, (clearing,), ()),
    ensures
        final(setting).los.field_unlog@.len() == old(setting).los.field_unlog@.len(),
        0 <= w < old(setting).los.field_unlog@.len() ==> final(setting).los.field_unlog@[w] == 1,
        final(clearing).los.field_unlog@.len() == old(clearing).los.field_unlog@.len(),
        0 <= w < old(clearing).los.field_unlog@.len() ==> final(clearing).los.field_unlog@[w] == 0,
        final(setting).los.used == old(setting).los.used,
        final(setting).los.mark_nursery == old(setting).los.mark_nursery,
        final(setting).los.treadmill == old(setting).los.treadmill,
        final(setting).rc == old(setting).rc,
        final(clearing).los.used == old(clearing).los.used,
        final(clearing).los.mark_nursery == old(clearing).los.mark_nursery,
        final(clearing).los.treadmill == old(clearing).los.treadmill,
        final(clearing).rc == old(clearing).rc,
{
}

/// A new space has no objects: no page is in use, nothing has a count, and as many pages as asked for can be
/// had at its start.
#[verifier::spinoff_prover]
pub proof fn law_new_large_object_space_is_empty(
    args: LargeObjectSpaceArgs,
    protect: bool,
    clear_log: bool,
    space: LXRLargeObjectSpace,
    a: int,
    taking: &mut LXRLargeObjectSpace,
    start: Address,
)
    requires
        args.start@ % 4096 == 0,
        args.start@ > 0,
        args.start@ + args.pages * 4096 <= usize::MAX,
        args.pages > 0,
        call_ensures(LXRLargeObjectSpace::new, (args, protect, clear_log), space),
        args.start@ <= a < args.start@ + args.pages * 4096,
        *taking == space,
        call_ensures(LXRLargeObjectSpace::allocate_pages, (taking, args.pages), start),
    ensures
        has(space, a),
        !space.los.used@[page_at(space, a)],
        pages_of(space, a) == 0,
        large_count(space, a) == 0,
        space.los.treadmill.alloc_nursery@.len() == 0,
        space.los.treadmill.mature@.len() == 0,
        !space.is_end_of_satb_or_full_gc,
        start == args.start,
{
    let all = space.los.treadmill.all();
    assert(all.len() == space.los.treadmill.alloc_nursery@.len()
        + space.los.treadmill.mature@.len());
    assert(run_free(space.los.used@, 0, args.pages as int));
}

/// What the space tells of itself is what it holds.
pub proof fn law_large_object_space_tells_what_it_holds(
    space: LXRLargeObjectSpace,
    name: &'static str,
    common: &CommonSpace,
    lazily: usize,
)
    requires
        call_ensures(LXRLargeObjectSpace::name, (&space,), name),
        call_ensures(LXRLargeObjectSpace::common, (&space,), common),
        call_ensures(LXRLargeObjectSpace::num_pages_released_lazy, (&space,), lazily),
    ensures
        name == space.los.common.name,
        *common == space.los.common,
        lazily == space.los.num_pages_released_lazy,
{
}

/// Large objects never move: they cannot be pinned or unpinned, and count as pinned.
pub proof fn law_large_objects_never_move(
    space: LXRLargeObjectSpace,
    o: ObjectReference,
    movable: bool,
    pinned: bool,
    unpinned: bool,
    is_pinned: bool,
    may_move: bool,
)
    requires
        call_ensures(LXRLargeObjectSpace::is_movable, (&space,), movable),
        call_ensures(LXRLargeObjectSpace::pin_object, (&space, o), pinned),
        call_ensures(LXRLargeObjectSpace::unpin_object, (&space, o), unpinned),
        call_ensures(LXRLargeObjectSpace::is_object_pinned, (&space, o), is_pinned),
        call_ensures(LXRLargeObjectSpace::may_move_objects, (), may_move),
    ensures
        !movable && !may_move && is_pinned && !pinned && !unpinned,
{
}

} // verus!
