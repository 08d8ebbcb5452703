//! What holds of the search for lines to allocate into.
use crate::policy::immix::block::{block_of, Block};
use crate::policy::immix::line::Line;
use crate::policy::lxr::block::LXRBlockExt;
use crate::policy::lxr::immixspace::{ImmixHooks, LXRSpace};
use crate::policy::lxr::terms::{count_at, inside, log_entry_at, marked_at, no_counts};
use vstd::prelude::*;

verus! {

/// A line of a block is dead exactly if nothing on it has a count.
#[verifier::spinoff_prover]
pub proof fn lemma_dead_line<H>(space: LXRSpace<H>, block: Block, i: int)
    requires
        space.wf(),
        space.immix.has_block(block),
        0 <= i < 128,
    ensures
        space.dead(block, i) <==> no_counts(space, block@ + i * 256, block@ + i * 256 + 256),
{
    let line = space.immix.line_index(block@) + i;
    let start = space.rc.start as int;
    assert(block@ + i * 256 == start + line * 256) by {
        assert((block@ - start) % 256 == 0);
    }
    if space.dead(block, i) {
        assert forall|a: int| block@ + i * 256 <= a < block@ + i * 256 + 256 implies #[trigger]
            count_at(space, a) == 0 by {
            let g = (a - start) / 16;
            assert(line * 16 <= g < line * 16 + 16);
            assert(space.rc.counts@[g] == 0);
        }
    }
    if no_counts(space, block@ + i * 256, block@ + i * 256 + 256) {
        assert forall|g: int|
            #![trigger space.rc.counts@[g]]
            line * 16 <= g < line * 16 + 16 implies space.rc.counts@[g] == 0 by {
            assert(count_at(space, start + g * 16) == 0);
            assert((start + g * 16 - start) / 16 == g);
        }
    }
}

/// A block has no counts exactly if nothing in it has one.
#[verifier::spinoff_prover]
pub proof fn lemma_clear_block<H>(space: LXRSpace<H>, block: Block)
    requires
        space.wf(),
        space.immix.has_block(block),
    ensures
        space.counts_clear(block) <==> no_counts(space, block@, block@ + 32768),
{
    let start = space.rc.start as int;
    let first = space.immix.granule(block@);
    assert(block@ == start + first * 16) by {
        assert((block@ - start) % 16 == 0);
    }
    if space.counts_clear(block) {
        assert forall|a: int| block@ <= a < block@ + 32768 implies #[trigger] count_at(space, a)
            == 0 by {
            let g = (a - start) / 16;
            assert(first <= g < first + 2048);
            assert(space.rc.counts@[g] == 0);
        }
    }
    if no_counts(space, block@, block@ + 32768) {
        assert forall|g: int|
            #![trigger space.rc.counts@[g]]
            first <= g < first + 2048 implies space.rc.counts@[g] == 0 by {
            assert(count_at(space, start + g * 16) == 0);
            assert((start + g * 16 - start) / 16 == g);
        }
    }
}

/// Where a line lies in its block.
#[verifier::spinoff_prover]
proof fn lemma_line_place(line: int, block: int)
    requires
        line % 256 == 0,
        block == line - line % 32768,
    ensures
        0 <= (line % 32768) / 256 < 128,
        line == block + (line % 32768) / 256 * 256,
        block % 32768 == 0,
        block <= line < block + 32768,
{
    let rest = line % 32768;
    vstd::arithmetic::div_mod::lemma_mod_mod(line, 256, 128);
    vstd::arithmetic::div_mod::lemma_fundamental_div_mod(rest, 256);
}

/// The number of a line that lies `n` bytes after the start of its block.
#[verifier::spinoff_prover]
proof fn lemma_line_number(block: int, line: int)
    requires
        block % 32768 == 0,
        line % 256 == 0,
        block <= line <= block + 32768,
    ensures
        line == block + (line - block) / 256 * 256,
        0 <= (line - block) / 256 <= 128,
        line < block + 32768 ==> (line - block) / 256 < 128,
{
}

/// The run of lines that a search gives back lies in the block of the line where the search began,
/// from that line on. Nothing in the run has a count. The run goes on until the end of the block or a
/// line on which something has a count.
#[verifier::spinoff_prover]
pub proof fn law_run_is_free<H: ImmixHooks>(
    space: &mut LXRSpace<H>,
    copy: bool,
    from: Line,
    start: Line,
    end: Line,
)
    requires
        space.wf(),
        from.wf(),
        inside(*space, from@),
        call_ensures(
            LXRSpace::<H>::rc_get_next_available_lines,
            (space, copy, from),
            Some((start, end)),
        ),
    ensures
        start@ % 256 == 0,
        end@ % 256 == 0,
        from@ <= start@ < end@,
        end@ - 1 - (end@ - 1) % 32768 == from@ - from@ % 32768,
        no_counts(*old(space), start@, end@),
        end@ % 32768 == 0 || !no_counts(*old(space), end@, end@ + 256),
{
    let before = *space;
    let block = block_of(from@);
    before.immix.lemma_block_of(from@);
    lemma_line_place(from@, block@);
    lemma_line_number(block@, start@);
    lemma_line_number(block@, end@);
    assert forall|a: int| start@ <= a < end@ implies #[trigger] count_at(before, a) == 0 by {
        let i = (a - block@) / 256;
        assert((start@ - block@) / 256 <= i < (end@ - block@) / 256);
        assert(before.dead(block, i));
        lemma_dead_line(before, block, i);
        assert(block@ + i * 256 <= a < block@ + i * 256 + 256);
    }
    if end@ < block@ + 32768 {
        lemma_dead_line(before, block, (end@ - block@) / 256);
    }
}

/// The first line of a run is the first line of its block, or the line before it was searched too and
/// nothing on it has a count: the line on which an object may end is not given out.
#[verifier::spinoff_prover]
pub proof fn law_run_leaves_a_line_after_an_object<H: ImmixHooks>(
    space: &mut LXRSpace<H>,
    copy: bool,
    from: Line,
    start: Line,
    end: Line,
)
    requires
        space.wf(),
        from.wf(),
        inside(*space, from@),
        call_ensures(
            LXRSpace::<H>::rc_get_next_available_lines,
            (space, copy, from),
            Some((start, end)),
        ),
    ensures
        start@ % 32768 == 0 || (from@ <= start@ - 256 && no_counts(
            *old(space),
            start@ - 256,
            start@,
        )),
{
    let before = *space;
    let block = block_of(from@);
    before.immix.lemma_block_of(from@);
    lemma_line_place(from@, block@);
    lemma_line_number(block@, start@);
    let s = (start@ - block@) / 256;
    assert(before.hole_at(block, (from@ % 32768) / 256, s));
    if s > 0 {
        lemma_dead_line(before, block, s - 1);
    }
}

/// No lines are passed over: where two lines in a row, both searched, have nothing with a count, or the
/// first line of the block is searched and has nothing with a count, the search gives back a run that
/// begins no later than there.
#[verifier::spinoff_prover]
pub proof fn law_search_passes_nothing_over<H: ImmixHooks>(
    space: &mut LXRSpace<H>,
    copy: bool,
    from: Line,
    lines: Option<(Line, Line)>,
    line: Line,
)
    requires
        space.wf(),
        from.wf(),
        inside(*space, from@),
        line.wf(),
        from@ <= line@,
        line@ - line@ % 32768 == from@ - from@ % 32768,
        no_counts(*space, line@, line@ + 256),
        line@ % 32768 == 0 || (from@ <= line@ - 256 && no_counts(*space, line@ - 256, line@)),
        call_ensures(LXRSpace::<H>::rc_get_next_available_lines, (space, copy, from), lines),
    ensures
        lines matches Some((start, end)) && start@ <= line@,
{
    let before = *space;
    let block = block_of(from@);
    before.immix.lemma_block_of(from@);
    lemma_line_place(from@, block@);
    lemma_line_place(line@, block@);
    let f = (from@ % 32768) / 256;
    let i = (line@ % 32768) / 256;
    lemma_dead_line(before, block, i);
    if i > 0 {
        lemma_dead_line(before, block, i - 1);
    }
    assert(f <= i);
    assert(before.hole_at(block, f, i));
    assert(from.index_in_block() == f);
    match lines {
        Some((start, end)) => {
            lemma_line_number(block@, start@);
            if line@ < start@ {
                assert(!before.hole_at(block, f, i));
            }
        },
        None => {
            assert(!before.hole_at(block, f, i));
        },
    }
}

/// A search moves no count and no object, and what is not in the run given back is as before. In the
/// run, the words are logged or not by who gets it, the marks are those of a trace in progress, and the
/// lines are counted where a mutator gets them.
#[verifier::spinoff_prover]
pub proof fn law_search_prepares_the_run_only<H: ImmixHooks>(
    space: &mut LXRSpace<H>,
    copy: bool,
    from: Line,
    lines: Option<(Line, Line)>,
    a: int,
)
    requires
        space.wf(),
        from.wf(),
        inside(*space, from@),
        inside(*space, a),
        call_ensures(LXRSpace::<H>::rc_get_next_available_lines, (space, copy, from), lines),
    ensures
        lines is None ==> *final(space) == *old(space),
        final(space).rc == old(space).rc,
        final(space).immix.block_states == old(space).immix.block_states,
        final(space).immix.forwarding == old(space).immix.forwarding,
        final(space).immix.pr == old(space).immix.pr,
        lines matches Some((start, end)) ==> {
            let tracing = old(space).hooks matches Some(h) && h.cm_in_progress();
            let reuse = (a - old(space).immix.common.start) / 256;
            &&& start@ <= a < end@ && old(space).immix.common.needs_log_bit ==> log_entry_at(
                *final(space),
                a,
            ) == (if copy {
                1u8
            } else {
                0u8
            })
            &&& !(start@ <= a < end@ && old(space).immix.common.needs_log_bit) ==> log_entry_at(
                *final(space),
                a,
            ) == log_entry_at(*old(space), a)
            &&& start@ <= a < end@ && tracing ==> {
                &&& final(space).immix.mark@[(a - old(space).immix.common.start) / 16] == 1
                &&& final(space).immix.line_reuse_counts@[reuse] == old(
                    space,
                ).immix.line_reuse_counts@[reuse].wrapping_add(1)
            }
            &&& !(start@ <= a < end@ && tracing) ==> {
                &&& marked_at(*final(space), a) == marked_at(*old(space), a)
                &&& final(space).immix.line_reuse_counts@[reuse] == old(
                    space,
                ).immix.line_reuse_counts@[reuse]
            }
            &&& copy ==> final(space).immix.reused_lines_consumed == old(
                space,
            ).immix.reused_lines_consumed
            &&& !copy ==> final(space).immix.reused_lines_consumed == old(
                space,
            ).immix.reused_lines_consumed.wrapping_add(((end@ - start@) / 256) as usize)
        },
{
    let before = *space;
    let block = block_of(from@);
    before.immix.lemma_block_of(from@);
    lemma_line_place(from@, block@);
    if let Some((start, end)) = lines {
        let s = before.immix.common.start as int;
        assert((start@ - s) % 256 == 0 && (end@ - s) % 256 == 0);
        assert(start@ <= a < end@ <==> (start@ - s) / 8 <= (a - s) / 8 < (end@ - s) / 8);
        assert(start@ <= a < end@ <==> (start@ - s) / 16 <= (a - s) / 16 < (end@ - s) / 16);
        assert(start@ <= a < end@ <==> (start@ - s) / 256 <= (a - s) / 256 < (end@ - s) / 256);
    }
}

/// An object lies in one block, it has a count, and so has the first of each line that it covers from
/// start to end. Then no search gives out any of its memory.
#[verifier::spinoff_prover]
pub proof fn law_recorded_object_is_not_given_out<H: ImmixHooks>(
    space: &mut LXRSpace<H>,
    object: int,
    size: int,
    copy: bool,
    from: Line,
    start: Line,
    end: Line,
    a: int,
)
    requires
        space.wf(),
        from.wf(),
        inside(*space, from@),
        inside(*space, object),
        size > 0,
        object % 32768 + size <= 32768,
        count_at(*space, object) > 0,
        forall|line: int|
            line % 256 == 0 && object < line && line + 256 <= object + size ==> #[trigger] count_at(
                *space,
                line,
            ) > 0,
        call_ensures(
            LXRSpace::<H>::rc_get_next_available_lines,
            (space, copy, from),
            Some((start, end)),
        ),
        object <= a < object + size,
    ensures
        !(start@ <= a < end@),
{
    law_run_is_free(space, copy, from, start, end);
    law_run_leaves_a_line_after_an_object(space, copy, from, start, end);
    lemma_not_in_run(*space, object, size, start@, end@, a);
}

/// An object that is recorded has no memory in a run of lines without counts, if the line before the
/// run has no counts either or belongs to another block.
#[verifier::spinoff_prover]
proof fn lemma_not_in_run<H>(
    space: LXRSpace<H>,
    object: int,
    size: int,
    start: int,
    end: int,
    a: int,
)
    requires
        0 <= object,
        object % 32768 + size <= 32768,
        count_at(space, object) > 0,
        forall|line: int|
            line % 256 == 0 && object < line && line + 256 <= object + size ==> #[trigger] count_at(
                space,
                line,
            ) > 0,
        start % 256 == 0,
        end % 256 == 0,
        no_counts(space, start, end),
        start % 32768 == 0 || no_counts(space, start - 256, start),
        object <= a < object + size,
    ensures
        !(start <= a < end),
{
    if start <= a < end {
        let line = a - a % 256;
        lemma_in_one_block(object, size, a, line);
        lemma_line_bounds(start, a, end);
        if object >= line {
            assert(count_at(space, object) == 0);
        } else if line + 256 <= object + size {
            assert(count_at(space, line) == 0);
        } else {
            // The object ends on this line, and is there with a count on the line before.
            let earlier = line - 256;
            assert(start <= earlier || start == line);
            if object >= earlier {
                assert(count_at(space, object) == 0);
            } else {
                assert(earlier % 256 == 0);
                assert(count_at(space, earlier) == 0);
            }
        }
    }
}

/// An address of an object in one block, and the line that it lies on.
#[verifier::spinoff_prover]
proof fn lemma_in_one_block(object: int, size: int, a: int, line: int)
    requires
        0 <= object,
        object % 32768 + size <= 32768,
        object <= a < object + size,
        line == a - a % 256,
    ensures
        line % 256 == 0,
        line <= a < line + 256,
        object < line ==> line % 32768 != 0,
{
    let b = object - object % 32768;
    assert(b % 32768 == 0);
    assert(b <= object && a < b + 32768);
    if object < line {
        if line % 32768 == 0 {
            let q = b / 32768;
            let r = line / 32768;
            assert(b == q * 32768 && line == r * 32768);
            assert(false);
        }
    }
}

/// The line of an address between two lines lies between them.
#[verifier::spinoff_prover]
proof fn lemma_line_bounds(start: int, a: int, end: int)
    requires
        start % 256 == 0,
        end % 256 == 0,
        start <= a < end,
    ensures
        start <= a - a % 256,
        a - a % 256 + 256 <= end,
{
}

/// A block has holes exactly if a search from its first line gives back lines.
#[verifier::spinoff_prover]
pub proof fn law_holes_are_what_a_search_finds<H: ImmixHooks>(
    space: &mut LXRSpace<H>,
    block: &Block,
    holes: bool,
    copy: bool,
    from: Line,
    lines: Option<(Line, Line)>,
)
    requires
        space.wf(),
        space.immix.has_block(*block),
        from@ == block@,
        call_ensures(Block::has_holes, (block, &*space), holes),
        call_ensures(LXRSpace::<H>::rc_get_next_available_lines, (space, copy, from), lines),
    ensures
        holes == (lines is Some),
{
    let before = *space;
    assert(block_of(from@) == *block);
    assert(from.index_in_block() == 0);
    match lines {
        Some((start, end)) => {
            let s = (start@ - block@) / 256;
            assert(before.hole_at(*block, 0, s));
        },
        None => {
            assert forall|i: int| 0 <= i < 128 implies !#[trigger] before.hole_at(*block, 0, i) by {}
        },
    }
}

/// A block has a hole where nothing in it has a count, and none where something on each line but those
/// of odd number has one.
#[verifier::spinoff_prover]
pub proof fn law_holes_are_two_lines_or_the_first<H>(
    space: &LXRSpace<H>,
    block: &Block,
    holes: bool,
    i: int,
)
    requires
        space.wf(),
        space.immix.has_block(*block),
        call_ensures(Block::has_holes, (block, space), holes),
    ensures
        no_counts(*space, block@, block@ + 256) ==> holes,
        0 <= i < 127 && no_counts(*space, block@ + i * 256, block@ + i * 256 + 512) ==> holes,
        (forall|a: int| block@ <= a < block@ + 32768 && (a - block@) / 256 % 2 == 0 && a % 256 == 0
            ==> #[trigger] count_at(*space, a) > 0) ==> !holes,
{
    let s = *space;
    lemma_dead_line(s, *block, 0);
    if no_counts(s, block@, block@ + 256) {
        assert(s.hole_at(*block, 0, 0));
    }
    if 0 <= i < 127 && no_counts(s, block@ + i * 256, block@ + i * 256 + 512) {
        lemma_dead_line(s, *block, i);
        lemma_dead_line(s, *block, i + 1);
        assert(s.hole_at(*block, 0, i + 1));
    }
    if forall|a: int| block@ <= a < block@ + 32768 && (a - block@) / 256 % 2 == 0 && a % 256 == 0
        ==> #[trigger] count_at(s, a) > 0 {
        assert forall|k: int| 0 <= k < 128 implies !#[trigger] s.hole_at(*block, 0, k) by {
            let even = k - k % 2;
            lemma_dead_line(s, *block, even);
            let a = block@ + even * 256;
            assert((a - block@) / 256 == even);
            assert(count_at(s, a) > 0);
            if k % 2 == 1 {
                assert(k - 1 == even);
            }
        }
    }
}

} // verus!
