//! What holds of blocks: which are free, what state they are in, and what their tables hold.
use crate::policy::immix::block::{Block, BlockState};
use crate::policy::immix::immixspace::{
    BlockPageResource, Defrag, ImmixSpace, ImmixSpaceArgs, PlanCreateSpaceArgs,
};
use crate::policy::immix::line::Line;
use crate::util::address::{Address, ObjectReference};
use crate::util::metadata::side_metadata::SideMetadataSpec;
use vstd::prelude::*;

verus! {

/// The number of the block that `a` lies in.
pub open spec fn number_of_block(space: ImmixSpace, a: int) -> int {
    (a - space.common.start) / 32768
}

/// Whether the block begins at a multiple of its size in the memory of the space.
pub open spec fn block_inside(space: ImmixSpace, block: Block) -> bool {
    &&& block.0.0 % 32768 == 0
    &&& space.common.start <= block.0.0 < space.common.start + space.block_states@.len() * 32768
}

/// A block that is taken was the last of the free ones, and is free no more; the others stay. None is taken, and
/// nothing changes, exactly if there is none.
#[verifier::spinoff_prover]
pub proof fn law_block_taken_was_free(
    space: &mut ImmixSpace,
    taken: Option<Block>,
    other: Block,
)
    requires
        space.wf(),
        call_ensures(ImmixSpace::acquire_clean_block_raw, (space,), taken),
    ensures
        taken is None <==> old(space).pr.free@.len() == 0,
        taken is None ==> *final(space) == *old(space),
        taken matches Some(b) ==> {
            &&& old(space).pr.free@.last() == b
            &&& final(space).pr.free@ == old(space).pr.free@.drop_last()
            &&& !final(space).pr.free@.contains(b)
            &&& final(space).pr.released == old(space).pr.released
            &&& final(space).pr.reserved_blocks == old(space).pr.reserved_blocks + 1
            &&& old(space).block_states@[number_of_block(*old(space), b.0.0 as int)]
                == BlockState::Unallocated
            &&& other != b ==> final(space).pr.free@.contains(other) == old(space).pr.free@.contains(other)
            &&& final(space).block_states == old(space).block_states
            &&& final(space).mark == old(space).mark
        },
{
    if let Some(b) = taken {
        let was = space.pr.free@;
        let now = final(space).pr.free@;
        let unused = final(space).pr.unused();
        if now.contains(b) {
            let i = now.index_of(b);
            assert(unused[i] == b);
            assert(unused.contains(b));
        }
        if was.contains(other) && other != b {
            let i = was.index_of(other);
            assert(now[i] == other);
        }
        if now.contains(other) {
            let i = now.index_of(other);
            assert(was[i] == other);
        }
    }
}

/// A block that is given back is Unallocated, waits until the next flush, and is counted as handed out no more. No
/// other block changes state. Its log entries, and no others, are cleared if they are to be.
#[verifier::spinoff_prover]
pub proof fn law_block_given_back_waits_for_the_flush(
    space: &mut ImmixSpace,
    block: Block,
    clear: bool,
    flushing: &mut ImmixSpace,
    a: int,
)
    requires
        space.wf(),
        block_inside(*space, block),
        space.in_use(block),
        call_ensures(ImmixSpace::release_block, (space, block, clear), ()),
        *flushing == *final(space),
        call_ensures(ImmixSpace::flush_pr_only, (flushing,), ()),
        space.common.start <= a < space.common.start + space.block_states@.len() * 32768,
    ensures
        final(space).pr.free == old(space).pr.free,
        final(space).pr.released@ == old(space).pr.released@.push(block),
        final(space).pr.reserved_blocks == old(space).pr.reserved_blocks - 1,
        ({
            let i = number_of_block(*old(space), a);
            let here = block.0.0 <= a < block.0.0 + 32768;
            &&& here ==> final(space).block_states@[i] == BlockState::Unallocated
            &&& !here ==> final(space).block_states@[i] == old(space).block_states@[i]
            &&& final(space).field_unlog@[(a - old(space).common.start) / 8] == (if clear && here {
                0
            } else {
                old(space).field_unlog@[(a - old(space).common.start) / 8]
            })
        }),
        final(space).mark == old(space).mark,
        final(flushing).pr.free@ == old(space).pr.free@ + old(space).pr.released@ + seq![block],
        final(flushing).pr.released@.len() == 0,
        final(flushing).pr.free@.contains(block),
        final(flushing).pr.reserved_blocks == old(space).pr.reserved_blocks - 1,
        final(flushing).block_states == final(space).block_states,
{
    lemma_block_number(space.common.start as int, block.0.0 as int, a);
    assert(final(flushing).pr.free@ =~= space.pr.free@ + space.pr.released@ + seq![block]);
    let n = space.pr.free@.len() + space.pr.released@.len();
    assert(final(flushing).pr.free@[n as int] == block);
}

/// Which words and which block an address lies in.
#[verifier::spinoff_prover]
proof fn lemma_block_number(start: int, block: int, a: int)
    requires
        0 <= start <= block,
        start <= a,
        start % 0x40_0000 == 0,
        block % 32768 == 0,
    ensures
        block <= a < block + 32768 <==> (a - start) / 32768 == (block - start) / 32768,
        block <= a < block + 32768 <==> (block - start) / 8 <= (a - start) / 8 < (block - start) / 8
            + 4096,
{
    assert(start % 32768 == 0);
    let d = block - start;
    assert(d % 32768 == 0);
    let k = d / 32768;
    assert(d == k * 32768);
}

/// Blocks given back become free at a flush, after those that are, and none waits any more; as many are handed out
/// as before. There are eight pages to a block.
pub proof fn law_flush_frees_what_was_given_back(
    pr: &mut BlockPageResource,
    pages: usize,
    b: Block,
)
    requires
        pr.reserved_blocks * 8 <= usize::MAX,
        call_ensures(BlockPageResource::reserved_pages, (&*pr,), pages),
        call_ensures(BlockPageResource::flush, (pr,), ()),
    ensures
        final(pr).free@ == old(pr).free@ + old(pr).released@,
        old(pr).free@.contains(b) || old(pr).released@.contains(b) ==> final(pr).free@.contains(b),
        final(pr).free@.len() == old(pr).free@.len() + old(pr).released@.len(),
        final(pr).released@.len() == 0,
        final(pr).reserved_blocks == old(pr).reserved_blocks,
        pages == old(pr).reserved_blocks * 8,
{
    if pr.free@.contains(b) {
        let i = pr.free@.index_of(b);
        assert(final(pr).free@[i] == b);
    }
    if pr.released@.contains(b) {
        let i = pr.released@.index_of(b);
        assert(final(pr).free@[pr.free@.len() + i] == b);
    }
}

/// Clean blocks for copies come out of the pages kept for them, eight at a time, down to none; then they are
/// exhausted. Other clean blocks do not.
pub proof fn law_copies_use_up_the_clean_pages(defrag: &mut Defrag, copy: bool)
    requires
        call_ensures(Defrag::notify_new_clean_block, (defrag, copy), ()),
    ensures
        !copy ==> *final(defrag) == *old(defrag),
        copy && old(defrag).available_clean_pages > 8 ==> final(defrag).available_clean_pages + 8
            == old(defrag).available_clean_pages && final(defrag).exhausted == old(defrag).exhausted,
        copy && old(defrag).available_clean_pages <= 8 ==> final(defrag).available_clean_pages == 0
            && final(defrag).exhausted,
        final(defrag).in_defrag == old(defrag).in_defrag,
{
}

/// The mark of the 16 bytes that `a` lies in.
pub open spec fn mark_of(space: ImmixSpace, a: int) -> u8 {
    space.mark@[(a - space.common.start) / 16]
}

/// An object is marked once until its mark is taken away; other marks stay.
#[verifier::spinoff_prover]
pub proof fn law_object_is_marked_until_unmarked(
    first: &mut ImmixSpace,
    o: ObjectReference,
    fresh: bool,
    marked: bool,
    second: &mut ImmixSpace,
    had: bool,
    still: bool,
    a: int,
)
    requires
        first.wf(),
        first.common.start <= o@ < first.common.start + first.block_states@.len() * 32768,
        call_ensures(ImmixSpace::attempt_mark, (first, o), fresh),
        call_ensures(ImmixSpace::is_marked, (&*final(first), o), marked),
        *second == *final(first),
        call_ensures(ImmixSpace::unmark, (second, o), had),
        call_ensures(ImmixSpace::is_marked, (&*final(second), o), still),
        first.common.start <= a < first.common.start + first.block_states@.len() * 32768,
        a >= o@ + 16 || o@ >= a + 16,
    ensures
        fresh <==> mark_of(*old(first), o@) != old(first).mark_state,
        marked,
        had,
        !still,
        mark_of(*final(first), a) == mark_of(*old(first), a),
        mark_of(*final(second), a) == mark_of(*old(first), a),
        final(first).mark_state == old(first).mark_state,
        final(first).block_states == old(first).block_states,
        final(first).pr == old(first).pr,
{
    let s = first.common.start as int;
    assert((a - s) / 16 != (o@ - s) / 16);
}

/// The state of one block, whether objects are to be moved out of it and whether its survivors stayed where they
/// are: what is set is what is told, and no other block changes.
#[verifier::spinoff_prover]
pub proof fn law_block_is_in_the_state_set(
    setting: &mut ImmixSpace,
    block: Block,
    state: BlockState,
    told: BlockState,
    choosing: &mut ImmixSpace,
    defrag: bool,
    chosen: bool,
    clearing: &mut ImmixSpace,
    promoted: bool,
    a: int,
)
    requires
        setting.wf() && choosing.wf() && clearing.wf(),
        block_inside(*setting, block) && block_inside(*choosing, block) && block_inside(
            *clearing,
            block,
        ),
        setting.in_use(block),
        call_ensures(Block::set_state, (&block, setting, state), ()),
        call_ensures(Block::get_state, (&block, &*final(setting)), told),
        call_ensures(Block::set_as_defrag_source, (&block, choosing, defrag), ()),
        call_ensures(Block::is_defrag_source, (&block, &*final(choosing)), chosen),
        call_ensures(Block::clear_in_place_promoted, (&block, clearing), ()),
        call_ensures(Block::is_in_place_promoted, (&block, &*final(clearing)), promoted),
        a < block.0.0 || block.0.0 + 32768 <= a,
    ensures
        told == state,
        chosen == defrag,
        !promoted,
        old(setting).common.start <= a < old(setting).common.start + old(setting).block_states@.len() * 32768
            ==> final(setting).block_states@[number_of_block(*old(setting), a)]
            == old(setting).block_states@[number_of_block(*old(setting), a)],
        old(choosing).common.start <= a < old(choosing).common.start + old(choosing).block_states@.len() * 32768
            ==> final(choosing).defrag_sources@[number_of_block(*old(choosing), a)]
            == old(choosing).defrag_sources@[number_of_block(*old(choosing), a)],
        old(clearing).common.start <= a < old(clearing).common.start + old(clearing).block_states@.len() * 32768
            ==> final(clearing).in_place_promoted@[number_of_block(*old(clearing), a)]
            == old(clearing).in_place_promoted@[number_of_block(*old(clearing), a)],
        final(setting).pr == old(setting).pr,
        final(choosing).block_states == old(choosing).block_states,
        final(clearing).block_states == old(clearing).block_states,
{
    if setting.common.start <= a {
        lemma_block_number(setting.common.start as int, block.0.0 as int, a);
    }
    if choosing.common.start <= a {
        lemma_block_number(choosing.common.start as int, block.0.0 as int, a);
    }
    if clearing.common.start <= a {
        lemma_block_number(clearing.common.start as int, block.0.0 as int, a);
    }
}

/// A block set up for copies is Unmarked; one for a mutator is Nursery if it is clean and Reusing if its holes are
/// filled. Objects are moved out of none of them because of an earlier use, unless a mutator fills its
/// holes; no other block changes.
#[verifier::spinoff_prover]
pub proof fn law_block_is_set_up_for_its_user(
    space: &mut ImmixSpace,
    block: Block,
    copy: bool,
    reuse: bool,
    state: BlockState,
    source: bool,
    promoted: bool,
    a: int,
)
    requires
        space.wf(),
        block_inside(*space, block),
        space.in_use(block),
        call_ensures(Block::init, (&block, space, copy, reuse), ()),
        call_ensures(Block::get_state, (&block, &*final(space)), state),
        call_ensures(Block::is_defrag_source, (&block, &*final(space)), source),
        call_ensures(Block::is_in_place_promoted, (&block, &*final(space)), promoted),
        space.common.start <= a < space.common.start + space.block_states@.len() * 32768,
        a < block.0.0 || block.0.0 + 32768 <= a,
    ensures
        copy ==> state == BlockState::Unmarked,
        !copy && reuse ==> state == BlockState::Reusing,
        !copy && !reuse ==> state == BlockState::Nursery,
        copy || !reuse ==> !source,
        !reuse ==> !promoted,
        final(space).block_states@[number_of_block(*old(space), a)] == old(space).block_states@[number_of_block(*old(space), a)],
        final(space).defrag_sources@[number_of_block(*old(space), a)] == old(space).defrag_sources@[number_of_block(*old(space), a)],
        final(space).pr == old(space).pr,
        final(space).mark == old(space).mark,
{
    lemma_block_number(space.common.start as int, block.0.0 as int, a);
}

/// A block can be claimed for being given back once: not if it is Unallocated already, and not while mutators fill
/// its holes if these blocks are to be left alone. One that is claimed is Unallocated from then on.
#[verifier::spinoff_prover]
pub proof fn law_block_is_given_up_once(
    first: &mut ImmixSpace,
    block: Block,
    ignore_reusing: bool,
    before: BlockState,
    claimed: bool,
    after: BlockState,
    second: &mut ImmixSpace,
    again: bool,
)
    requires
        first.wf(),
        block_inside(*first, block),
        call_ensures(Block::get_state, (&block, &*first), before),
        call_ensures(Block::attempt_dealloc, (&block, first, ignore_reusing), claimed),
        call_ensures(Block::get_state, (&block, &*final(first)), after),
        *second == *final(first),
        call_ensures(Block::attempt_dealloc, (&block, second, ignore_reusing), again),
    ensures
        claimed <==> before != BlockState::Unallocated && !(before == BlockState::Reusing
            && ignore_reusing),
        claimed ==> after == BlockState::Unallocated && !again,
        !claimed ==> *final(first) == *old(first) && !again,
        final(first).pr == old(first).pr,
{
}

/// The lines of a run: their log entries are cleared or set, everything on them is marked, and the counts of
/// their reuse go up by one, coming round to zero. No other line changes.
#[verifier::spinoff_prover]
pub proof fn law_tables_of_a_run_are_written(
    clearing: &mut ImmixSpace,
    setting: &mut ImmixSpace,
    marking: &mut ImmixSpace,
    counting: &mut ImmixSpace,
    start: Line,
    end: Line,
    a: int,
)
    requires
        clearing.wf(),
        *setting == *clearing && *marking == *clearing && *counting == *clearing,
        start.0.0 % 256 == 0 && end.0.0 % 256 == 0,
        clearing.common.start <= start.0.0 <= end.0.0,
        end.0.0 <= clearing.common.start + clearing.block_states@.len() * 32768,
        call_ensures(Line::clear_field_unlog_table, (clearing, start, end), ()),
        call_ensures(Line::initialize_field_unlog_table_as_unlogged, (setting, start, end), ()),
        call_ensures(Line::initialize_mark_table_as_marked, (marking, start, end), ()),
        call_ensures(Line::inc_reuse_counts, (counting, start, end), ()),
        clearing.common.start <= a < clearing.common.start + clearing.block_states@.len() * 32768,
    ensures
        ({
            let before = *old(clearing);
            let s = before.common.start as int;
            let on_run = start.0.0 <= a < end.0.0;
            let count = before.line_reuse_counts@[(a - s) / 256];
            &&& final(clearing).field_unlog@[(a - s) / 8] == (if on_run {
                0
            } else {
                before.field_unlog@[(a - s) / 8]
            })
            &&& final(setting).field_unlog@[(a - s) / 8] == (if on_run {
                1
            } else {
                before.field_unlog@[(a - s) / 8]
            })
            &&& final(marking).mark@[(a - s) / 16] == (if on_run {
                1
            } else {
                before.mark@[(a - s) / 16]
            })
            &&& final(counting).line_reuse_counts@[(a - s) / 256] == (if on_run {
                (count + 1) % 256
            } else {
                count as int
            })
        }),
        final(clearing).mark == old(clearing).mark,
        final(setting).mark == old(setting).mark,
        final(marking).field_unlog == old(marking).field_unlog,
        final(counting).mark == old(counting).mark,
{
    let s = clearing.common.start as int;
    lemma_units(s, start.0.0 as int, a);
    lemma_units(s, end.0.0 as int, a);
}

/// An address comes before a line exactly if its word, its granule and its line do.
proof fn lemma_units(s: int, line: int, a: int)
    requires
        s % 0x40_0000 == 0,
        0 <= s <= line,
        line % 256 == 0,
        s <= a,
    ensures
        a < line <==> (a - s) / 8 < (line - s) / 8,
        a < line <==> (a - s) / 16 < (line - s) / 16,
        a < line <==> (a - s) / 256 < (line - s) / 256,
{
    assert(s % 256 == 0);
    let d = line - s;
    assert(d % 256 == 0);
    let k = d / 256;
    assert(d == k * 256);
}

/// Where a block is in the tables: blocks one after the other have numbers one after the other, and 128 of them
/// share a chunk.
#[verifier::spinoff_prover]
pub proof fn law_blocks_are_numbered(space: ImmixSpace, block: Block, i: usize, chunk: usize)
    requires
        space.wf(),
        block_inside(space, block),
        call_ensures(Block::index_in, (&block, &space), i),
        call_ensures(Block::chunk, (&block, &space), chunk),
    ensures
        block.0.0 == space.common.start + i * 32768,
        i < space.block_states@.len(),
        chunk * 128 <= i < (chunk + 1) * 128,
{
}

/// Counting the lines that mutators are given again: they add up, until they are counted anew. A mark state that is
/// reset is one.
pub proof fn law_reused_lines_add_up(
    adding: &mut ImmixSpace,
    lines: usize,
    sum: usize,
    resetting: &mut ImmixSpace,
    none: usize,
    marking: &mut ImmixSpace,
)
    requires
        call_ensures(ImmixSpace::add_reused_lines_consumed, (adding, lines), ()),
        call_ensures(ImmixSpace::reused_lines_consumed_count, (&*final(adding),), sum),
        call_ensures(ImmixSpace::reset_reused_lines_consumed, (resetting,), ()),
        call_ensures(ImmixSpace::reused_lines_consumed_count, (&*final(resetting),), none),
        call_ensures(ImmixSpace::reset_mark_state_to_marked, (marking,), ()),
    ensures
        old(adding).reused_lines_consumed + lines <= usize::MAX ==> sum == old(adding).reused_lines_consumed + lines,
        none == 0,
        final(adding).pr == old(adding).pr,
        final(resetting).pr == old(resetting).pr,
        final(marking).mark_state == 1,
        final(marking).mark == old(marking).mark,
{
}

/// A new space has all its blocks free, each once, and nothing in it is marked, logged or moved.
#[verifier::spinoff_prover]
pub proof fn law_new_space_has_every_block_free(
    args: PlanCreateSpaceArgs,
    space_args: ImmixSpaceArgs,
    extra: Vec<SideMetadataSpec>,
    space: ImmixSpace,
    i: int,
    a: int,
    filling: &mut ImmixSpace,
    value: u8,
    headroom: usize,
)
    requires
        call_ensures(
            ImmixSpace::new_with_extra_side_metadata_specs,
            (args, space_args, extra),
            space,
        ),
        args.start@ + args.blocks * 32768 <= usize::MAX,
        0 <= i < args.blocks,
        args.start@ <= a < args.start@ + args.blocks * 32768,
        *filling == space,
        call_ensures(ImmixSpace::fill_side_log_bits, (filling, value), ()),
        call_ensures(ImmixSpace::defrag_headroom_pages, (&space,), headroom),
    ensures
        space.pr.free@.len() == args.blocks,
        space.pr.free@[i].0.0 == args.start@ + i * 32768,
        space.pr.released@.len() == 0,
        space.pr.reserved_blocks == 0,
        headroom == 0,
        space.block_states@.len() == args.blocks,
        space.block_states@[i] == BlockState::Unallocated,
        mark_of(space, a) != space.mark_state,
        space.forwarding.status@[(a - args.start@) / 16] == 0,
        space.field_unlog@[(a - args.start@) / 8] == 0,
        final(filling).field_unlog@[(a - args.start@) / 8] == value,
        final(filling).mark == space.mark,
        !space.defrag.in_defrag,
        space.reused_lines_consumed == 0,
{
}

/// What a space and its lines tell of themselves is what they hold.
pub proof fn law_space_tells_whether_objects_move(
    space: ImmixSpace,
    in_defrag: bool,
    movable: bool,
    line: Line,
    start: Address,
)
    requires
        call_ensures(ImmixSpace::in_defrag, (&space,), in_defrag),
        call_ensures(ImmixSpace::is_movable, (&space,), movable),
        call_ensures(Line::start, (&line,), start),
    ensures
        in_defrag == space.defrag.in_defrag,
        movable == !space.space_args.never_move_objects,
        start.0 == line.0.0,
{
}

} // verus!
