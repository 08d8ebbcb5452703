//! What holds of blocks that are swept, handed out and given back.
use crate::plan::pause::Pause;
use crate::policy::immix::block::{block_of, Block, BlockState};
use crate::policy::immix::line::Line;
use crate::policy::lxr::block::{dead_lines, LXRBlockExt};
use crate::policy::lxr::immixspace::{ImmixHooks, LXRSpace};
use crate::policy::lxr::search_laws::{lemma_clear_block, lemma_dead_line};
use crate::policy::lxr::terms::{
    count_at, covered_at, inside, log_entry_at, marked_at, no_counts, state_at, to_evacuate,
};
use crate::util::rc::line_dead;
use vstd::prelude::*;

verus! {

/// Whether a sweep may give the block at `a` back: it is handed out, holds old objects, and no mutator is
/// filling it.
pub open spec fn sweepable<H>(space: LXRSpace<H>, a: int) -> bool {
    let state = state_at(space, a);
    state is Unmarked || state is Marked || state is Reusable
}

/// Whether the block is among those that are not handed out.
pub open spec fn listed<H>(space: LXRSpace<H>, block: Block) -> bool {
    space.immix.pr.free@.contains(block) || space.immix.pr.released@.contains(block)
}

/// A block of old objects in which nothing has a count is given back by every sweep, and so is one that
/// is to be evacuated, whatever counts there are. Afterwards it is not handed out, it is among the blocks
/// given back, and none of its words is to be logged.
#[verifier::spinoff_prover]
pub proof fn law_dead_block_is_given_back<H>(
    space: &mut LXRSpace<H>,
    block: &Block,
    defrag: bool,
    released: bool,
    a: int,
)
    requires
        space.wf(),
        space.immix.has_block(*block),
        sweepable(*space, block@),
        defrag || no_counts(*space, block@, block@ + 32768),
        call_ensures(Block::rc_sweep_mature, (block, space, defrag), released),
        block@ <= a < block@ + 32768,
    ensures
        released,
        state_at(*final(space), block@) == BlockState::Unallocated,
        final(space).immix.pr.released@ == old(space).immix.pr.released@.push(*block),
        final(space).immix.pr.free == old(space).immix.pr.free,
        final(space).immix.pr.reserved_blocks == old(space).immix.pr.reserved_blocks - 1,
        final(space).immix.reusable_blocks == old(space).immix.reusable_blocks,
        log_entry_at(*final(space), a) == 0,
{
    lemma_clear_block(*space, *block);
    let s = space.immix.common.start as int;
    assert((block@ - s) % 8 == 0);
    assert((block@ - s) / 8 <= (a - s) / 8 < (block@ - s) / 8 + 4096);
}

/// A block is given back by the sweep only if it is to be evacuated or nothing in it has a count. A block
/// that is not handed out, one with new objects and one that a mutator is filling are never touched.
#[verifier::spinoff_prover]
pub proof fn law_block_in_use_is_kept<H>(
    space: &mut LXRSpace<H>,
    block: &Block,
    defrag: bool,
    released: bool,
    object: int,
)
    requires
        space.wf(),
        space.immix.has_block(*block),
        block@ <= object < block@ + 32768,
        call_ensures(Block::rc_sweep_mature, (block, space, defrag), released),
    ensures
        !sweepable(*old(space), block@) ==> !released && *final(space) == *old(space),
        !defrag && count_at(*old(space), object) > 0 ==> {
            &&& !released
            &&& final(space).immix.pr == old(space).immix.pr
            &&& state_at(*final(space), block@) == BlockState::Unallocated <==> state_at(
                *old(space),
                block@,
            ) == BlockState::Unallocated
        },
{
    lemma_clear_block(*space, *block);
    if !defrag && count_at(*space, object) > 0 {
        assert(!space.counts_clear(*block));
    }
}

/// A block with counts that is not to be evacuated is offered for its holes exactly if it has some and is
/// not offered already; each is offered once, after the earlier ones. Otherwise nothing happens to it.
#[verifier::spinoff_prover]
pub proof fn law_block_with_holes_is_offered<H>(
    space: &mut LXRSpace<H>,
    block: &Block,
    released: bool,
    object: int,
    holes: bool,
)
    requires
        space.wf(),
        space.immix.has_block(*block),
        sweepable(*space, block@),
        block@ <= object < block@ + 32768,
        count_at(*space, object) > 0,
        call_ensures(Block::has_holes, (block, &*space), holes),
        call_ensures(Block::rc_sweep_mature, (block, space, false), released),
    ensures
        !released,
        holes && !(state_at(*old(space), block@) is Reusable) ==> {
            &&& state_at(*final(space), block@) == (BlockState::Reusable { unavailable_lines: 1 })
            &&& final(space).immix.reusable_blocks@ == old(space).immix.reusable_blocks@.push(*block)
        },
        !holes || state_at(*old(space), block@) is Reusable ==> *final(space) == *old(space),
{
    lemma_clear_block(*space, *block);
    assert(!space.counts_clear(*block));
}

/// A sweep of either kind leaves the counts, marks and moved objects of the space alone, and the state of
/// every other block.
#[verifier::spinoff_prover]
pub proof fn law_sweep_is_about_one_block<H>(
    space: &mut LXRSpace<H>,
    block: &Block,
    defrag: bool,
    released: bool,
    nursery: &mut LXRSpace<H>,
    released_nursery: bool,
    a: int,
)
    requires
        space.wf(),
        space.immix.has_block(*block),
        *nursery == *space,
        call_ensures(Block::rc_sweep_mature, (block, space, defrag), released),
        call_ensures(Block::rc_sweep_nursery, (block, nursery), released_nursery),
        inside(*space, a),
        a < block@ || block@ + 32768 <= a,
    ensures
        final(space).rc == old(space).rc,
        final(space).immix.mark == old(space).immix.mark,
        final(space).immix.forwarding == old(space).immix.forwarding,
        final(space).immix.defrag_sources == old(space).immix.defrag_sources,
        final(space).immix.in_place_promoted == old(space).immix.in_place_promoted,
        state_at(*final(space), a) == state_at(*old(space), a),
        log_entry_at(*final(space), a) == log_entry_at(*old(space), a),
        final(nursery).rc == old(space).rc,
        final(nursery).immix.mark == old(space).immix.mark,
        final(nursery).immix.forwarding == old(space).immix.forwarding,
        state_at(*final(nursery), a) == state_at(*old(space), a),
        log_entry_at(*final(nursery), a) == log_entry_at(*old(space), a),
{
    let s = space.immix.common.start as int;
    assert((block@ - s) % 32768 == 0);
    assert((a - s) / 32768 != (block@ - s) / 32768);
    assert(!((block@ - s) / 8 <= (a - s) / 8 < (block@ - s) / 8 + 4096));
}

/// A block of new objects is given back exactly if nothing in it was promoted where it is. If something
/// was, the block is offered for its holes, once. Either way nothing counts as promoted in it any more.
#[verifier::spinoff_prover]
pub proof fn law_nursery_block_without_survivors_is_given_back<H>(
    space: &mut LXRSpace<H>,
    block: &Block,
    released: bool,
)
    requires
        space.wf(),
        space.immix.has_block(*block),
        call_ensures(Block::rc_sweep_nursery, (block, space), released),
    ensures
        ({
            let i = (block@ - old(space).immix.common.start) / 32768;
            let promoted = old(space).immix.in_place_promoted@[i];
            &&& released == !promoted
            &&& !final(space).immix.in_place_promoted@[i]
            &&& !promoted ==> {
                &&& state_at(*final(space), block@) == BlockState::Unallocated
                &&& final(space).immix.pr.released@ == old(space).immix.pr.released@.push(*block)
                &&& final(space).immix.pr.free == old(space).immix.pr.free
                &&& final(space).immix.pr.reserved_blocks == old(space).immix.pr.reserved_blocks
                    - 1
                &&& final(space).immix.reusable_blocks == old(space).immix.reusable_blocks
            }
            &&& promoted ==> {
                &&& state_at(*final(space), block@) == (BlockState::Reusable { unavailable_lines: 1 })
                &&& final(space).immix.reusable_blocks@ == old(space).immix.reusable_blocks@.push(*block)
                &&& final(space).immix.pr == old(space).immix.pr
            }
        }),
{
}

/// A block that a sweep gave back is not handed out before the next flush, and is after it.
#[verifier::spinoff_prover]
pub proof fn law_block_given_back_comes_round<H: ImmixHooks>(
    space: &mut LXRSpace<H>,
    block: &Block,
    defrag: bool,
    second: &mut LXRSpace<H>,
    copy: bool,
    other: Option<Block>,
    third: &mut LXRSpace<H>,
    fourth: &mut LXRSpace<H>,
    next: Option<Block>,
)
    requires
        space.wf(),
        space.immix.has_block(*block),
        sweepable(*space, block@),
        call_ensures(Block::rc_sweep_mature, (block, space, defrag), true),
        *second == *final(space),
        second.wf(),
        call_ensures(LXRSpace::<H>::get_clean_block, (second, copy), other),
        *third == *final(space),
        call_ensures(LXRSpace::<H>::flush_page_resource, (third,), ()),
        *fourth == *final(third),
        call_ensures(LXRSpace::<H>::get_clean_block, (fourth, copy), next),
    ensures
        other != Some(*block),
        next == Some(*block),
{
    let unused = second.immix.pr.unused();
    let n = second.immix.pr.free@.len();
    let r = second.immix.pr.released@;
    assert(r.last() == *block);
    assert(unused[n + r.len() - 1] == *block);
    if let Some(b) = other {
        assert(unused[n - 1] == b);
    }
    assert(third.immix.pr.unused().last() == *block);
}

/// A clean block is one that was not handed out and that was there to be handed out; there is one exactly
/// if there was such a block. Afterwards it is not among those any more and has a state of its own: one
/// for copies is unmarked, and one for a mutator holds new objects. It is not to be evacuated, and nothing
/// was promoted in it.
#[verifier::spinoff_prover]
pub proof fn law_clean_block_was_free<H: ImmixHooks>(
    space: &mut LXRSpace<H>,
    copy: bool,
    block: Option<Block>,
    a: int,
)
    requires
        space.wf(),
        inside(*space, a),
        call_ensures(LXRSpace::<H>::get_clean_block, (space, copy), block),
    ensures
        block is None <==> old(space).immix.pr.free@.len() == 0,
        block is None ==> *final(space) == *old(space),
        final(space).rc == old(space).rc,
        final(space).immix.forwarding == old(space).immix.forwarding,
        final(space).immix.reusable_blocks == old(space).immix.reusable_blocks,
        block matches Some(b) ==> {
            &&& old(space).immix.pr.free@.contains(b)
            &&& !final(space).immix.pr.free@.contains(b)
            &&& !final(space).immix.pr.released@.contains(b)
            &&& final(space).immix.pr.free@.push(b) == old(space).immix.pr.free@
            &&& final(space).immix.pr.reserved_blocks == old(space).immix.pr.reserved_blocks + 1
            &&& state_at(*final(space), b@) == (if copy {
                BlockState::Unmarked
            } else {
                BlockState::Nursery
            })
            &&& !to_evacuate(*final(space), b@)
            &&& !final(space).immix.in_place_promoted@[(b@ - old(space).immix.common.start) / 32768]
            &&& a < b@ || b@ + 32768 <= a ==> state_at(*final(space), a) == state_at(
                *old(space),
                a,
            ) && to_evacuate(*final(space), a) == to_evacuate(*old(space), a)
            &&& final(space).immix.chunk_map@[(b@ - old(space).immix.common.start) / 0x40_0000]
        },
{
    if let Some(b) = block {
        let free = space.immix.pr.free@;
        let n = free.len() as int;
        assert(free[n - 1] == b);
        let s = space.immix.common.start as int;
        assert((b@ - s) % 32768 == 0);
        if a < b@ || b@ + 32768 <= a {
            assert((a - s) / 32768 != (b@ - s) / 32768);
        }
        let unused = space.immix.pr.unused();
        assert(unused[n - 1] == b);
        assert forall|k: int| 0 <= k < n - 1 implies #[trigger] free[k] != b by {
            assert(unused[k] == free[k]);
        }
        assert forall|k: int| 0 <= k < space.immix.pr.released@.len() implies #[trigger]
            space.immix.pr.released@[k] != b by {
            assert(unused[n + k] == space.immix.pr.released@[k]);
        }
        assert(final(space).immix.pr.free@.push(b) =~= free);
        assert(0 <= (b@ - s) / 0x40_0000 < final(space).immix.chunk_map@.len());
    }
}

/// Where collections move objects, each clean block taken for copies leaves eight pages fewer for the
/// rest, and none once there are no more than eight.
#[verifier::spinoff_prover]
pub proof fn law_copies_take_from_the_reserve<H: ImmixHooks>(
    space: &mut LXRSpace<H>,
    copy: bool,
    block: Block,
)
    requires
        space.wf(),
        call_ensures(LXRSpace::<H>::get_clean_block, (space, copy), Some(block)),
    ensures
        !copy || !old(space).immix.defrag.in_defrag ==> final(space).immix.defrag == old(space).immix.defrag,
        copy && old(space).immix.defrag.in_defrag ==> {
            let pages = old(space).immix.defrag.available_clean_pages;
            &&& final(space).immix.defrag.in_defrag
            &&& pages > 8 ==> final(space).immix.defrag.available_clean_pages + 8 == pages
                && final(space).immix.defrag.exhausted == old(space).immix.defrag.exhausted
            &&& pages <= 8 ==> final(space).immix.defrag.available_clean_pages == 0
                && final(space).immix.defrag.exhausted
        },
{
}

/// A block handed out for its holes was offered, was still to be reused and was not to be evacuated. No
/// block offered later was. It is not offered any more, and those offered before it still are.
#[verifier::spinoff_prover]
pub proof fn law_reused_block_was_offered<H: ImmixHooks>(
    space: &mut LXRSpace<H>,
    copy: bool,
    block: Option<Block>,
    offer: int,
    a: int,
)
    requires
        space.wf(),
        inside(*space, a),
        call_ensures(LXRSpace::<H>::get_reusable_block, (space, copy), block),
        0 <= offer < space.immix.reusable_blocks@.len(),
    ensures
        final(space).rc == old(space).rc,
        final(space).immix.pr == old(space).immix.pr,
        ({
            let offers = old(space).immix.reusable_blocks@;
            let fit = |b: Block|
                state_at(*old(space), b@) is Reusable && !to_evacuate(*old(space), b@);
            &&& block is None ==> !fit(offers[offer])
                && final(space).immix.reusable_blocks@.len() == 0
            &&& block matches Some(b) ==> {
                let left = final(space).immix.reusable_blocks@;
                &&& left.len() < offers.len()
                &&& left == offers.take(left.len() as int)
                &&& offers[left.len() as int] == b
                &&& fit(b)
                &&& offer > left.len() ==> !fit(offers[offer])
                &&& state_at(*final(space), b@) == (if copy {
                    BlockState::Unmarked
                } else {
                    BlockState::Reusing
                })
                &&& a < b@ || b@ + 32768 <= a ==> state_at(*final(space), a) == state_at(
                    *old(space),
                    a,
                )
            }
        }),
{
    if let Some(b) = block {
        let s = space.immix.common.start as int;
        assert((b@ - s) % 32768 == 0);
        if a < b@ || b@ + 32768 <= a {
            assert((a - s) / 32768 != (b@ - s) / 32768);
        }
    }
}

/// A block is claimed for a mutator exactly if it is there to be reused, and then it is not any more.
#[verifier::spinoff_prover]
pub proof fn law_block_is_claimed_once<H>(
    space: &mut LXRSpace<H>,
    block: &Block,
    claimed: bool,
    second: &mut LXRSpace<H>,
    again: bool,
)
    requires
        space.wf(),
        space.immix.has_block(*block),
        call_ensures(Block::attempt_mutator_reuse, (block, space), claimed),
        *second == *final(space),
        call_ensures(Block::attempt_mutator_reuse, (block, second), again),
    ensures
        claimed == (state_at(*old(space), block@) is Reusable),
        !again,
        claimed ==> state_at(*final(space), block@) == BlockState::Reusing,
        !claimed ==> *final(space) == *old(space),
{
}

/// The lines of a block from `lo` up to `hi` on which nothing has a count.
pub open spec fn empty_lines<H>(space: LXRSpace<H>, block: Block, lo: int, hi: int) -> Set<int> {
    vstd::set_lib::set_int_range(lo, hi).filter(
        |i: int| no_counts(space, block@ + i * 256, block@ + i * 256 + 256),
    )
}

/// The dead lines of a block are counted: there are as many as there are lines on which nothing has a
/// count.
#[verifier::spinoff_prover]
pub proof fn law_dead_lines_are_counted<H>(space: &LXRSpace<H>, block: &Block, n: usize)
    requires
        space.wf(),
        space.immix.has_block(*block),
        call_ensures(Block::calc_dead_lines, (block, space), n),
    ensures
        n == empty_lines(*space, *block, 0, 128).len(),
        n == 128 <==> no_counts(*space, block@, block@ + 32768),
{
    lemma_count_empty_lines(*space, *block, 128);
    let all = vstd::set_lib::set_int_range(0, 128);
    vstd::set_lib::lemma_int_range(0, 128);
    let some = empty_lines(*space, *block, 0, 128);
    if no_counts(*space, block@, block@ + 32768) {
        assert forall|i: int| all.contains(i) implies some.contains(i) by {
            assert(no_counts(*space, block@ + i * 256, block@ + i * 256 + 256));
        }
        assert(some =~= all);
    }
    if n == 128 {
        vstd::set_lib::lemma_subset_equality(some, all);
        assert forall|a: int| block@ <= a < block@ + 32768 implies #[trigger] count_at(*space, a)
            == 0 by {
            let i = (a - block@) / 256;
            assert(all.contains(i));
            assert(some.contains(i));
            assert(block@ + i * 256 <= a < block@ + i * 256 + 256);
        }
    }
}

#[verifier::spinoff_prover]
proof fn lemma_count_empty_lines<H>(space: LXRSpace<H>, block: Block, n: nat)
    requires
        space.wf(),
        space.immix.has_block(block),
        n <= 128,
    ensures
        dead_lines(space.rc.counts@, space.immix.line_index(block@), n) == empty_lines(
            space,
            block,
            0,
            n as int,
        ).len(),
        empty_lines(space, block, 0, n as int).finite(),
    decreases n,
{
    let now = empty_lines(space, block, 0, n as int);
    vstd::set_lib::lemma_int_range(0, n as int);
    if n == 0 {
        assert(now =~= Set::<int>::empty());
    } else {
        let i = n - 1;
        lemma_count_empty_lines(space, block, i as nat);
        let before = empty_lines(space, block, 0, i);
        lemma_dead_line(space, block, i);
        assert(space.dead(block, i) == line_dead(
            space.rc.counts@,
            space.immix.line_index(block@) + n - 1,
        ));
        if space.dead(block, i) {
            assert(now =~= before.insert(i));
        } else {
            assert(now =~= before);
        }
    }
}

/// The tables of a block are cleared for the whole block and for nothing else.
#[verifier::spinoff_prover]
pub proof fn law_tables_of_a_block_are_cleared<H>(
    counts: &mut LXRSpace<H>,
    covered: &mut LXRSpace<H>,
    marks: &mut LXRSpace<H>,
    all_marks: &mut LXRSpace<H>,
    words: &mut LXRSpace<H>,
    block: &Block,
    dead: bool,
    a: int,
)
    requires
        counts.wf(),
        counts.immix.has_block(*block),
        *covered == *counts,
        *marks == *counts,
        *all_marks == *counts,
        *words == *counts,
        call_ensures(Block::clear_rc_table, (block, counts), ()),
        call_ensures(Block::rc_dead, (block, &*final(counts)), dead),
        call_ensures(Block::clear_striddle_table, (block, covered), ()),
        call_ensures(Block::clear_mark_table, (block, marks), ()),
        call_ensures(Block::initialize_mark_table_as_marked, (block, all_marks), ()),
        call_ensures(Block::initialize_field_unlog_table_as_unlogged, (block, words), ()),
        inside(*counts, a),
    ensures
        dead,
        block@ <= a < block@ + 32768 ==> {
            &&& count_at(*final(counts), a) == 0
            &&& !covered_at(*final(covered), a)
            &&& !marked_at(*final(marks), a)
            &&& final(all_marks).immix.mark@[(a - old(all_marks).immix.common.start) / 16] == 1
            &&& log_entry_at(*final(words), a) == 1
        },
        a < block@ || block@ + 32768 <= a ==> {
            &&& count_at(*final(counts), a) == count_at(*old(counts), a)
            &&& covered_at(*final(covered), a) == covered_at(*old(covered), a)
            &&& marked_at(*final(marks), a) == marked_at(*old(marks), a)
            &&& marked_at(*final(all_marks), a) == marked_at(*old(all_marks), a)
            &&& log_entry_at(*final(words), a) == log_entry_at(*old(words), a)
        },
{
    let s = counts.immix.common.start as int;
    assert((block@ - s) % 256 == 0);
    assert(block@ <= a < block@ + 32768 <==> (block@ - s) / 16 <= (a - s) / 16 < (block@ - s) / 16
        + 2048);
    assert(block@ <= a < block@ + 32768 <==> (block@ - s) / 256 <= (a - s) / 256 < (block@ - s)
        / 256 + 128);
    assert(block@ <= a < block@ + 32768 <==> (block@ - s) / 8 <= (a - s) / 8 < (block@ - s) / 8
        + 4096);
}

/// A block is without counts exactly if nothing in it has one.
#[verifier::spinoff_prover]
pub proof fn law_dead_block_has_no_counts<H>(space: &LXRSpace<H>, block: &Block, dead: bool)
    requires
        space.wf(),
        space.immix.has_block(*block),
        call_ensures(Block::rc_dead, (block, space), dead),
    ensures
        dead <==> no_counts(*space, block@, block@ + 32768),
{
    lemma_clear_block(*space, *block);
}

/// A block is logged once, until it is made one that is not logged; other blocks are not concerned.
#[verifier::spinoff_prover]
pub proof fn law_block_is_logged_once<H>(
    space: &mut LXRSpace<H>,
    block: &Block,
    fresh: bool,
    second: &mut LXRSpace<H>,
    again: bool,
    third: &mut LXRSpace<H>,
    fourth: &mut LXRSpace<H>,
    anew: bool,
    other: Block,
)
    requires
        space.wf(),
        space.immix.has_block(*block),
        space.immix.has_block(other),
        other != *block,
        call_ensures(Block::log, (block, space), fresh),
        *second == *final(space),
        call_ensures(Block::log, (block, second), again),
        *third == *final(second),
        call_ensures(Block::unlog, (block, third), ()),
        *fourth == *final(third),
        call_ensures(Block::log, (block, fourth), anew),
    ensures
        ({
            let i = (block@ - old(space).immix.common.start) / 32768;
            let j = (other@ - old(space).immix.common.start) / 32768;
            &&& fresh == (old(space).immix.block_log@[i] == 0)
            &&& !again
            &&& anew
            &&& final(fourth).immix.block_log@[j] == old(space).immix.block_log@[j]
        }),
{
    let s = space.immix.common.start as int;
    assert((block@ - s) % 32768 == 0 && (other@ - s) % 32768 == 0);
    assert(other@ != block@);
    assert((block@ - s) / 32768 != (other@ - s) / 32768);
}

/// Before a pause that starts a trace, marks are reset to those of a new trace. Marks decide what is
/// alive from the pause in which a trace ends until the pause is over; a pause that only counts gives no
/// memory back, and every other makes what was given back available.
#[verifier::spinoff_prover]
pub proof fn law_pauses<H>(
    space: &mut LXRSpace<H>,
    pause: Pause,
    later: &mut LXRSpace<H>,
    block: Block,
)
    requires
        space.wf(),
        call_ensures(LXRSpace::<H>::prepare_rc, (space, pause), ()),
        later.wf(),
        call_ensures(LXRSpace::<H>::release_rc, (later,), ()),
    ensures
        pause == Pause::Full || pause == Pause::InitialMark ==> final(space).immix.mark_state == 1,
        pause == Pause::RefCount || pause == Pause::FinalMark ==> final(space).immix.mark_state
            == old(space).immix.mark_state,
        pause == Pause::Full || pause == Pause::FinalMark ==> final(space).is_end_of_satb_or_full_gc,
        pause == Pause::RefCount || pause == Pause::InitialMark ==> final(space).is_end_of_satb_or_full_gc == old(space).is_end_of_satb_or_full_gc,
        pause == Pause::RefCount ==> final(space).immix.pr == old(space).immix.pr,
        pause != Pause::RefCount ==> {
            &&& final(space).immix.pr.released@.len() == 0
            &&& final(space).immix.pr.free@.contains(block) == listed(*old(space), block)
        },
        pause != Pause::Full ==> final(space).immix.scheduler == old(space).immix.scheduler,
        final(space).rc == old(space).rc,
        final(space).immix.mark == old(space).immix.mark,
        final(space).immix.block_states == old(space).immix.block_states,
        !final(later).is_end_of_satb_or_full_gc,
        final(later).rc.inc_buffer_size == 0,
        final(later).rc.counts == old(later).rc.counts,
        final(later).immix.reused_lines_consumed == 0,
        final(later).immix.pr.released@.len() == 0,
        final(later).immix.pr.free@.contains(block) == listed(*old(later), block),
        final(later).immix.mark == old(later).immix.mark,
        final(later).immix.mark_state == old(later).immix.mark_state,
        final(later).immix.block_states == old(later).immix.block_states,
{
    lemma_listed(*space, block);
    lemma_listed(*later, block);
}

proof fn lemma_listed<H>(space: LXRSpace<H>, block: Block)
    ensures
        space.immix.pr.unused().contains(block) == listed(space, block),
{
    let free = space.immix.pr.free@;
    let released = space.immix.pr.released@;
    let unused = space.immix.pr.unused();
    if free.contains(block) {
        let i = choose|i: int| 0 <= i < free.len() && free[i] == block;
        assert(unused[i] == block);
    }
    if released.contains(block) {
        let i = choose|i: int| 0 <= i < released.len() && released[i] == block;
        assert(unused[free.len() + i] == block);
    }
    if unused.contains(block) {
        let i = choose|i: int| 0 <= i < unused.len() && unused[i] == block;
        if i < free.len() {
            assert(free[i] == block);
        } else {
            assert(released[i - free.len()] == block);
        }
    }
}

/// In a full collection every worker is told to drop its allocation buffers, after what it was told
/// before.
pub proof fn law_full_collection_tells_every_worker<H>(
    space: &mut LXRSpace<H>,
    worker: int,
)
    requires
        space.wf(),
        call_ensures(LXRSpace::<H>::prepare_rc, (space, Pause::Full), ()),
        0 <= worker < space.immix.scheduler.worker_group.workers_shared@.len(),
    ensures
        ({
            let was = old(space).immix.scheduler.worker_group.workers_shared@[worker].designated_work@;
            let now = final(space).immix.scheduler.worker_group.workers_shared@[worker].designated_work@;
            &&& now.len() == was.len() + 1
            &&& now.drop_last() == was
            &&& now.last() is PrepareCollector
        }),
{
    let was = space.immix.scheduler.designated(worker);
    let now = final(space).immix.scheduler.designated(worker);
    assert(now == was.push(crate::scheduler::WorkPacket::PrepareCollector));
    assert(now.drop_last() =~= was);
}

} // verus!
