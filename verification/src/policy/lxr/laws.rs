//! What holds of the LXR spaces as a whole.
use crate::policy::immix::block::{block_of, Block, BlockState};
use crate::policy::immix::line::Line;
use crate::policy::lxr::block::{dead_lines, mature_swept, nursery_swept};
use crate::policy::lxr::immixspace::{
    clean_block_taken, forward_traced, mark_cleared, mark_set, next_lines, rc_traced,
    reusable_block_taken, traced_by_moving, traced_in_place, traced_without_moving, ImmixHooks,
    LXRSpace,
};
use crate::policy::largeobjectspace::{run_free, LargeObjectSpace, MARK_BIT};
use crate::policy::lxr::largeobjectspace::{
    entry_marked, los_mark_set, nursery_released, objects_released, page_of_any, selected,
    starts_any, survivors, LXRLargeObjectSpace,
};
use crate::scheduler::worker::GCWorker;
use crate::util::address::ObjectReference;
use crate::util::rc::line_dead;
use crate::vm::object_model::ObjectModel;
use vstd::prelude::*;

verus! {

/// A search from the first line of a block finds a run of lines exactly if the block has holes.
pub proof fn law_search_finds_what_has_holes_promises<H: ImmixHooks>(
    before: LXRSpace<H>,
    copy: bool,
    search_start: Line,
    after: LXRSpace<H>,
    lines: Option<(Line, Line)>,
)
    requires
        search_start.index_in_block() == 0,
        next_lines(before, copy, search_start, after, lines),
    ensures
        lines is Some <==> before.holes_in(block_of(search_start@)),
{
}

/// No object on a line that the search gives back has a count.
#[verifier::spinoff_prover]
pub proof fn law_lines_given_out_hold_nothing<H: ImmixHooks>(
    before: LXRSpace<H>,
    copy: bool,
    search_start: Line,
    after: LXRSpace<H>,
    start: Line,
    end: Line,
    object: ObjectReference,
)
    requires
        before.wf(),
        before.immix.covers(search_start@),
        next_lines(before, copy, search_start, after, Some((start, end))),
        start@ <= object@ < end@,
    ensures
        before.rc.count_of(object) == 0,
        after.rc.count_of(object) == 0,
{
    before.immix.lemma_block_of(search_start@);
    let block = block_of(search_start@);
    let i = (object@ - block@) / 256;
    let g = before.rc.granule(object@);
    lemma_granule_of_line(before.rc.start as int, block@, object@);
    lemma_between_lines(block@, start@, object@, end@);
    assert(before.dead(block, i));
    assert(before.rc.counts@[g] == 0);
}

/// An address between two lines of a block lies on one of those between them.
#[verifier::spinoff_prover]
proof fn lemma_between_lines(block: int, start: int, address: int, end: int)
    requires
        block % 32768 == 0,
        start % 256 == 0,
        end % 256 == 0,
        block <= start <= address < end,
    ensures
        (start - block) / 256 <= (address - block) / 256 < (end - block) / 256,
{
}

/// The granule of an address belongs to its line.
#[verifier::spinoff_prover]
proof fn lemma_granule_of_line(start: int, block: int, address: int)
    requires
        start % 256 == 0,
        block % 256 == 0,
        start <= block <= address,
    ensures
        ((block - start) / 256 + (address - block) / 256) * 16 <= (address - start) / 16,
        (address - start) / 16 < ((block - start) / 256 + (address - block) / 256) * 16 + 16,
{
}

/// A search that continues where the last run ended gives back a later run, and leaves the line
/// after an object out.
#[verifier::spinoff_prover]
pub proof fn law_search_moves_on<H: ImmixHooks>(
    first: LXRSpace<H>,
    copy: bool,
    search_start: Line,
    second: LXRSpace<H>,
    start: Line,
    end: Line,
    copy_again: bool,
    third: LXRSpace<H>,
    next_start: Line,
    next_end: Line,
)
    requires
        first.wf(),
        search_start.wf(),
        first.immix.covers(search_start@),
        next_lines(first, copy, search_start, second, Some((start, end))),
        end@ < block_of(search_start@)@ + 32768,
        next_lines(second, copy_again, end, third, Some((next_start, next_end))),
    ensures
        end@ + 512 <= next_start@,
{
    first.immix.lemma_block_of(search_start@);
    let block = block_of(search_start@);
    let e = (end@ - block@) / 256;
    let s = (next_start@ - block@) / 256;
    lemma_line_of_block(block@, end@, e);
    lemma_line_of_block(block@, next_start@, s);
    assert(!first.dead(block, e));
    assert(second.hole_at(block, e, s));
    assert(second.dead(block, e) == first.dead(block, e));
}

/// The line that lies `index` lines into the block at `block`.
#[verifier::spinoff_prover]
proof fn lemma_line_of_block(block: int, line: int, index: int)
    requires
        block % 32768 == 0,
        line % 256 == 0,
        block <= line < block + 32768,
        index == (line - block) / 256,
    ensures
        line == block + index * 256,
        line - line % 32768 == block,
        (line % 32768) / 256 == index,
{
    let q = block / 32768;
    let a = line / 256;
    let d = line - block;
    assert(block == q * 32768);
    assert(line == a * 256);
    vstd::arithmetic::div_mod::lemma_fundamental_div_mod_converse(line, 32768, q, d);
    vstd::arithmetic::div_mod::lemma_fundamental_div_mod_converse(d, 256, a - q * 128, 0);
}

/// Whether marks decide or counts alone, what a trace has reached is alive. The exception, while
/// marks decide, is a marked object of which only one of two things is true: that its block is to
/// be evacuated, and that it was moved.
pub proof fn law_reachable_is_live<H>(space: LXRSpace<H>, object: ObjectReference)
    requires
        space.wf(),
        space.immix.covers(object@),
        space.is_end_of_satb_or_full_gc && space.immix.marked(object) ==> (
        space.immix.defrag_source(block_of(object@)) <==> space.forwarded(object) is Some),
        space.reachable(object),
    ensures
        space.live(object),
{
}

/// Moving an object takes its count to the copy, where the two do not overlap; the object keeps
/// being alive, the copy is the one that is marked, and tracing the object again gives the same
/// copy and changes nothing.
#[verifier::spinoff_prover]
pub proof fn law_moving_keeps_object_alive<H, VM: ObjectModel>(
    before: LXRSpace<H>,
    object: ObjectReference,
    vm: VM,
    after: LXRSpace<H>,
    new: ObjectReference,
    vm_later: VM,
    again: LXRSpace<H>,
    new_again: ObjectReference,
)
    requires
        before.wf(),
        before.immix.covers(object@),
        before.forwarded(object) is None,
        before.can_forward(object, vm),
        object@ + 16 <= new@ || new@ + vm.size_of(object) <= object@,
        object@ % 16 == 0 && new@ % 16 == 0 && new@ != object@,
        forward_traced(before, object, vm, after, new),
        forward_traced(after, object, vm_later, again, new_again),
    ensures
        after.rc.count_of(new) == before.rc.count_of(object),
        after.rc.count_of(new) > 0,
        after.immix.marked(new),
        !after.immix.marked(object),
        after.forwarded(object) == Some(new),
        after.live(object),
        new_again == new,
        again == after,
{
    let from = before.immix.granule(object@);
    let to = before.immix.granule(new@);
    assert(before.immix.common.start % 16 == 0);
    assert(from != to);
    assert(after.forwarded(object) == Some(new));
    assert(after.immix.mark@[to] == before.immix.mark_state);
    assert(after.immix.mark@[from] == 0);
    let size = vm.size_of(object);
    if size > 256 {
        let first = before.rc.line(new@);
        let last = before.rc.line(new@ + size);
        if from % 16 == 0 && first < from / 16 < last {
            assert(from / 16 == before.rc.line(object@));
            assert(false);
        }
    }
}

/// Once traced, an object is marked, and every object that starts on another granule is marked or
/// not as before.
pub proof fn law_mark_marks_one_object<H>(
    before: LXRSpace<H>,
    object: ObjectReference,
    after: LXRSpace<H>,
    other: ObjectReference,
)
    requires
        before.wf(),
        before.immix.covers(object@),
        before.immix.covers(other@),
        mark_set(before, object, after),
    ensures
        after.immix.marked(object),
        before.immix.granule(other@) != before.immix.granule(object@) ==> after.immix.marked(other)
            == before.immix.marked(other),
{
}

/// An object whose mark was taken away is not marked, and can be marked again as if for the first
/// time.
pub proof fn law_mark_taken_away_can_be_set_again<H>(
    before: LXRSpace<H>,
    object: ObjectReference,
    cleared: LXRSpace<H>,
    after: LXRSpace<H>,
)
    requires
        before.wf(),
        before.immix.covers(object@),
        mark_cleared(before, object, cleared),
        mark_set(cleared, object, after),
    ensures
        before.immix.marked(object) ==> before.immix.mark@[before.immix.granule(object@)] != 0,
        !cleared.immix.marked(object),
        after.immix.marked(object),
        after.immix.mark@ == before.immix.mark@.update(
            before.immix.granule(object@),
            before.immix.mark_state,
        ),
{
}

/// Tracing has the effects and the result of one of three traces: of that which moves the object, if
/// old objects are evacuated and its block is to be; of that which marks it in place, if they are
/// evacuated and its block is not to be; and else of that which moves nothing. So the object stays
/// where it is unless its block is to be evacuated.
pub proof fn law_trace_is_one_of_three<H, VM: ObjectModel>(
    evacuation: bool,
    before: LXRSpace<H>,
    queued: Seq<ObjectReference>,
    worker: GCWorker<VM>,
    object: ObjectReference,
    mark: bool,
    after: LXRSpace<H>,
    queued_after: Seq<ObjectReference>,
    worker_after: GCWorker<VM>,
    result: ObjectReference,
)
    ensures
        ({
            let source = before.immix.defrag_source(block_of(object@));
            let traced = rc_traced(
                evacuation,
                before,
                queued,
                worker,
                object,
                mark,
                after,
                queued_after,
                worker_after,
                result,
            );
            let moving = traced_by_moving(
                before,
                queued,
                worker,
                object,
                after,
                queued_after,
                worker_after,
                result,
            );
            let in_place = traced_in_place(
                before,
                queued,
                object,
                mark,
                after,
                queued_after,
                result,
            );
            let without_moving = traced_without_moving(
                before,
                queued,
                object,
                after,
                queued_after,
                result,
            );
            &&& evacuation && source ==> (traced <==> moving)
            &&& evacuation && !source ==> (traced <==> in_place && worker_after == worker)
            &&& !evacuation ==> (traced <==> without_moving && worker_after == worker)
            &&& traced && !(evacuation && source) ==> result == object
        }),
{
}

/// Sweeping a block a second time in the same way does nothing.
pub proof fn law_mature_sweep_is_idempotent<H>(
    before: LXRSpace<H>,
    block: Block,
    defrag: bool,
    after: LXRSpace<H>,
    released: bool,
    again: LXRSpace<H>,
    released_again: bool,
)
    requires
        before.wf(),
        before.immix.has_block(block),
        mature_swept(before, block, defrag, after, released),
        mature_swept(after, block, defrag, again, released_again),
    ensures
        again == after,
        !released_again,
{
    assert(after.counts_clear(block) == before.counts_clear(block));
    assert forall|i: int| #[trigger] after.hole_at(block, 0, i) == before.hole_at(block, 0, i) by {}
}

/// A sweep changes the state of no other block.
#[verifier::spinoff_prover]
pub proof fn law_sweep_leaves_other_blocks<H>(
    before: LXRSpace<H>,
    block: Block,
    defrag: bool,
    after: LXRSpace<H>,
    released: bool,
    other: Block,
)
    requires
        before.wf(),
        before.immix.has_block(block),
        before.immix.has_block(other),
        other != block,
        mature_swept(before, block, defrag, after, released) || nursery_swept(
            before,
            block,
            after,
            released,
        ),
    ensures
        after.immix.state(other) == before.immix.state(other),
{
    assert(before.immix.common.start % 32768 == 0);
    assert(other@ != block@);
}

/// Two requests for a clean block are never answered with the same block, unless it was given back
/// in between.
pub proof fn law_clean_blocks_are_distinct<H: ImmixHooks>(
    first: LXRSpace<H>,
    copy: bool,
    block: Block,
    second: LXRSpace<H>,
    copy_again: bool,
    next: Block,
    third: LXRSpace<H>,
)
    requires
        clean_block_taken(first, copy, block, second),
        clean_block_taken(second, copy_again, next, third),
    ensures
        block != next,
{
}

/// A block handed out for its holes is not handed out for them again before it is swept.
pub proof fn law_reused_block_is_claimed<H: ImmixHooks>(
    first: LXRSpace<H>,
    copy: bool,
    block: Block,
    second: LXRSpace<H>,
)
    requires
        first.wf(),
        reusable_block_taken(first, copy, block, second),
    ensures
        !second.may_reuse(block),
        second.immix.state(block) != BlockState::Unallocated,
{
}

/// A block without counts is one whose lines are all dead.
pub proof fn law_dead_block_has_dead_lines_only<H>(space: LXRSpace<H>, block: Block)
    requires
        space.wf(),
        space.immix.has_block(block),
    ensures
        space.counts_clear(block) <==> dead_lines(
            space.rc.counts@,
            space.immix.line_index(block@),
            128,
        ) == 128,
{
    let first = space.immix.line_index(block@);
    lemma_first_granule(space.immix.common.start as int, block@);
    lemma_clear_counts(space.rc.counts@, first);
}

#[verifier::spinoff_prover]
proof fn lemma_first_granule(start: int, block: int)
    requires
        start % 256 == 0,
        block % 256 == 0,
        start <= block,
    ensures
        (block - start) / 16 == (block - start) / 256 * 16,
{
}

#[verifier::spinoff_prover]
proof fn lemma_clear_counts(counts: Seq<u8>, first: int)
    ensures
        (forall|g: int|
            #![trigger counts[g]]
            first * 16 <= g < first * 16 + 2048 ==> counts[g] == 0) <==> dead_lines(
            counts,
            first,
            128,
        ) == 128,
{
    lemma_dead_lines_full(counts, first, 128);
    if forall|i: int| 0 <= i < 128 ==> #[trigger] line_dead(counts, first + i) {
        assert forall|g: int|
            #![trigger counts[g]]
            first * 16 <= g < first * 16 + 2048 implies counts[g] == 0 by {
            assert(line_dead(counts, first + (g / 16 - first)));
        }
    }
}

proof fn lemma_dead_lines_full(counts: Seq<u8>, first: int, n: nat)
    ensures
        dead_lines(counts, first, n) <= n,
        dead_lines(counts, first, n) == n <==> forall|i: int|
            0 <= i < n ==> #[trigger] line_dead(counts, first + i),
    decreases n,
{
    if n > 0 {
        lemma_dead_lines_full(counts, first, (n - 1) as nat);
        if dead_lines(counts, first, n) == n {
            assert forall|i: int| 0 <= i < n implies #[trigger] line_dead(counts, first + i) by {
                if i == n - 1 {
                    assert(line_dead(counts, first + n - 1));
                }
            }
        }
        if forall|i: int| 0 <= i < n ==> #[trigger] line_dead(counts, first + i) {
            assert(line_dead(counts, first + (n - 1)));
        }
    }
}

/// Flipping the mark state makes exactly the large objects that were not marked marked ones.
pub proof fn law_flip_exchanges_marks(
    before: LargeObjectSpace,
    after: LargeObjectSpace,
    object: ObjectReference,
)
    requires
        before.wf(),
        before.covers(object@),
        after == (LargeObjectSpace { mark_state: (1 - before.mark_state) as u8, ..before }),
    ensures
        after.marked(object) == !before.marked(object),
{
    let entry = before.mark_nursery@[before.page(object@)];
    assert(entry & 1 == 0 || entry & 1 == 1) by (bit_vector);
}

/// Once traced, a large object is marked, and tracing it again finds it marked; every other one is
/// marked or not as before.
pub proof fn law_large_object_marked_once(
    before: LXRLargeObjectSpace,
    object: ObjectReference,
    after: LXRLargeObjectSpace,
    other: ObjectReference,
)
    requires
        before.wf(),
        before.los.covers(object@),
        before.los.covers(other@),
        los_mark_set(before, object, after),
    ensures
        after.los.marked(object),
        los_mark_set(after, object, after),
        before.los.page(other@) != before.los.page(object@) ==> after.los.marked(other)
            == before.los.marked(other),
{
    let entry = before.los.mark_nursery@[before.los.page(object@)];
    let state = before.los.mark_state;
    assert((entry & !3u8 | state) & 1 == state) by (bit_vector)
        requires
            state <= 1,
    ;
    assert(entry_marked(entry, state) & MARK_BIT == state);
    assert(after.los.mark_nursery@ =~= after.los.mark_nursery@.update(
        before.los.page(object@),
        entry_marked(
            after.los.mark_nursery@[before.los.page(object@)],
            after.los.mark_state,
        ),
    ));
}

/// A large object that a complete trace has reached is alive.
pub proof fn law_reachable_large_object_is_live(
    space: LXRLargeObjectSpace,
    object: ObjectReference,
)
    requires
        space.reachable(object),
    ensures
        space.live(object),
{
}

/// Of the new large objects, those with a count become old ones and keep their pages, and the
/// pages of the others are free afterwards.
pub proof fn law_nursery_object_survives_by_its_count(
    before: LXRLargeObjectSpace,
    after: LXRLargeObjectSpace,
    i: int,
)
    requires
        before.wf(),
        nursery_released(before, after),
        0 <= i < before.los.treadmill.alloc_nursery@.len(),
    ensures
        ({
            let object = before.los.treadmill.alloc_nursery@[i];
            let p = before.los.page(object@);
            if before.rc.count_of(object) > 0 {
                &&& after.los.treadmill.mature@.contains(object)
                &&& after.los.lengths@[p] == before.los.lengths@[p]
            } else {
                &&& after.los.lengths@[p] == 0
                &&& run_free(after.los.used@, p, before.los.lengths@[p] as int)
            }
        }),
{
    let nursery = before.los.treadmill.alloc_nursery@;
    let n = nursery.len();
    let pick = survivors(before);
    let object = nursery[i];
    let all = before.los.treadmill.all();
    assert(all[i] == object);
    assert(before.los.allocated(all[i]));
    let dead = selected(nursery, pick, false, n);
    lemma_selected_picks(nursery, pick, false, n);
    lemma_selected_picks(nursery, pick, true, n);
    if before.rc.count_of(object) > 0 {
        lemma_selected_has(nursery, pick, true, n, i);
        let kept = selected(nursery, pick, true, n);
        let k = choose|k: int| 0 <= k < kept.len() && kept[k] == object;
        assert(after.los.treadmill.mature@[before.los.treadmill.mature@.len() + k] == object);
        assert(!starts_any(before.los, dead, before.los.page(object@))) by {
            if starts_any(before.los, dead, before.los.page(object@)) {
                let d = choose|d: int|
                    0 <= d < dead.len() && before.los.page((#[trigger] dead[d])@)
                        == before.los.page(object@);
                assert(picked(nursery, pick, false, n as int, dead[d]));
                let j = choose|j: int|
                    0 <= j < n && pick[j] == false && #[trigger] nursery[j] == dead[d];
                assert(all[j] == nursery[j]);
                assert(j != i);
                if j < i {
                    assert(before.los.page(all[j]@) != before.los.page(all[i]@));
                } else {
                    assert(before.los.page(all[i]@) != before.los.page(all[j]@));
                }
            }
        }
    } else {
        lemma_selected_has(nursery, pick, false, n, i);
        let d = choose|d: int| 0 <= d < dead.len() && dead[d] == object;
        assert(starts_any(before.los, dead, before.los.page(dead[d]@)));
        let p = before.los.page(object@);
        assert forall|q: int| p <= q < p + before.los.lengths@[p] implies !#[trigger] after.los.used@[q] by {
            assert(before.los.page(dead[d]@) <= q);
            assert(page_of_any(before.los, dead, q));
        }
    }
}

/// Whether `object` is one of the first `n` of `objects` for which `pick` says `value`.
spec fn picked(
    objects: Seq<ObjectReference>,
    pick: Seq<bool>,
    value: bool,
    n: int,
    object: ObjectReference,
) -> bool {
    exists|i: int| 0 <= i < n && pick[i] == value && #[trigger] objects[i] == object
}

proof fn lemma_selected_picks(
    objects: Seq<ObjectReference>,
    pick: Seq<bool>,
    value: bool,
    n: nat,
)
    requires
        n <= objects.len(),
    ensures
        forall|k: int|
            0 <= k < selected(objects, pick, value, n).len() ==> picked(
                objects,
                pick,
                value,
                n as int,
                #[trigger] selected(objects, pick, value, n)[k],
            ),
    decreases n,
{
    if n > 0 {
        lemma_selected_picks(objects, pick, value, (n - 1) as nat);
        let rest = selected(objects, pick, value, (n - 1) as nat);
        let now = selected(objects, pick, value, n);
        assert forall|k: int| 0 <= k < now.len() implies picked(
            objects,
            pick,
            value,
            n as int,
            #[trigger] now[k],
        ) by {
            if k < rest.len() {
                assert(picked(objects, pick, value, n - 1, rest[k]));
            } else {
                assert(objects[n - 1] == now[k]);
            }
        }
    }
}

proof fn lemma_selected_has(
    objects: Seq<ObjectReference>,
    pick: Seq<bool>,
    value: bool,
    n: nat,
    i: int,
)
    requires
        0 <= i < n <= objects.len(),
        pick[i] == value,
    ensures
        exists|k: int|
            0 <= k < selected(objects, pick, value, n).len() && selected(
                objects,
                pick,
                value,
                n,
            )[k] == objects[i],
    decreases n,
{
    let now = selected(objects, pick, value, n);
    let rest = selected(objects, pick, value, (n - 1) as nat);
    if i < n - 1 {
        lemma_selected_has(objects, pick, value, (n - 1) as nat, i);
        let k = choose|k: int| 0 <= k < rest.len() && rest[k] == objects[i];
        assert(now[k] == objects[i]);
    } else {
        assert(now[rest.len() as int] == objects[i]);
    }
}

/// The pages of a large object that was given back can be allocated again.
pub proof fn law_pages_given_back_can_be_allocated(
    before: LargeObjectSpace,
    object: ObjectReference,
    after: LargeObjectSpace,
)
    requires
        before.wf(),
        before.allocated(object),
        objects_released(before, seq![object], after),
    ensures
        run_free(
            after.used@,
            before.page(object@),
            before.lengths@[before.page(object@)] as int,
        ),
{
    let dead = seq![object];
    let p = before.page(object@);
    assert forall|q: int| p <= q < p + before.lengths@[p] implies !#[trigger] after.used@[q] by {
        assert(dead[0] == object);
        assert(page_of_any(before, dead, q));
    }
}

} // verus!
