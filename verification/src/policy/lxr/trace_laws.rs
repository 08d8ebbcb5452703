//! What holds of the ways to trace one object, and of what the space tells of itself.
use crate::plan::pause::Pause;
use crate::plan::tracing::ObjectQueue;
use crate::policy::immix::block::{block_of, Block, BlockState};
use crate::policy::immix::immixspace::{
    BlockPageResource, CommonSpace, ImmixSpace, ImmixSpaceArgs, PlanCreateSpaceArgs,
};
use crate::policy::immix::line::Line;
use crate::policy::lxr::evacuation_laws::{lemma_moved, line_within};
use crate::policy::lxr::immixspace::{next_lines, run_of_hole, ImmixHooks, LXRSpace};
use crate::policy::lxr::terms::{
    count_at, covered_at, inside, log_entry_at, marked_at, moved_to, state_at,
};
use crate::scheduler::worker::GCWorker;
use crate::scheduler::GCWorkScheduler;
use crate::util::address::ObjectReference;
use crate::util::heap::chunk_map::ChunkMap;
use crate::vm::object_model::{CopySemantics, ObjectModel};
use vstd::prelude::*;

verus! {

/// Tracing by moving: an object that was not moved is copied to where the object model puts it. The copy has its
/// count, is marked and queued, and is where the object is known to be from then on; the object is not
/// marked. No other mark or place changes, and no other count but those of lines that the copy covers from
/// start to end.
#[verifier::spinoff_prover]
pub proof fn law_traced_object_is_copied<H: ImmixHooks, Q: ObjectQueue, VM: ObjectModel>(
    space: &mut LXRSpace<H>,
    queue: &mut Q,
    object: ObjectReference,
    semantics: CopySemantics,
    pause: Pause,
    worker: &mut GCWorker<VM>,
    new: ObjectReference,
    a: int,
)
    requires
        space.wf(),
        inside(*space, object@),
        moved_to(*space, object@) is None,
        space.can_forward(object, worker.object_model),
        object@ + 16 <= new@ || new@ + worker.object_model.size_of(object) <= object@,
        object@ % 16 == 0 && new@ % 16 == 0 && object@ != new@,
        call_ensures(
            LXRSpace::<H>::trace_forward_rc_mature_object::<Q, VM>,
            (space, queue, object, semantics, pause, worker),
            new,
        ),
        inside(*space, a),
        a % 16 == 0,
    ensures
        old(worker).object_model.copy_target(object, CopySemantics::DefaultCopy) == Some(new),
        count_at(*final(space), new@) == count_at(*old(space), object@),
        marked_at(*final(space), new@),
        !marked_at(*final(space), object@),
        moved_to(*final(space), object@) == Some(new@),
        final(queue).queued() == old(queue).queued().push(new),
        a != object@ && a != new@ ==> marked_at(*final(space), a) == marked_at(*old(space), a),
        a != object@ ==> moved_to(*final(space), a) == moved_to(*old(space), a),
        ({
            let size = old(worker).object_model.size_of(object) as int;
            &&& a != new@ && !line_within(new@, size, a) ==> count_at(*final(space), a) == count_at(
                *old(space),
                a,
            )
            &&& line_within(new@, size, a) ==> count_at(*final(space), a) > 0 && covered_at(
                *final(space),
                a,
            )
        }),
{
    lemma_moved(*space, object, new, worker.object_model.size_of(object), *final(space), a);
}

/// Tracing by moving what was moved already gives back the copy, and nothing else happens.
#[verifier::spinoff_prover]
pub proof fn law_traced_copy_is_found<H: ImmixHooks, Q: ObjectQueue, VM: ObjectModel>(
    space: &mut LXRSpace<H>,
    queue: &mut Q,
    object: ObjectReference,
    semantics: CopySemantics,
    pause: Pause,
    worker: &mut GCWorker<VM>,
    result: ObjectReference,
)
    requires
        space.wf(),
        inside(*space, object@),
        moved_to(*space, object@) is Some,
        call_ensures(
            LXRSpace::<H>::trace_forward_rc_mature_object::<Q, VM>,
            (space, queue, object, semantics, pause, worker),
            result,
        ),
    ensures
        moved_to(*old(space), object@) == Some(result@),
        *final(space) == *old(space),
        *final(worker) == *old(worker),
        final(queue).queued() == old(queue).queued(),
{
}

/// Tracing in place: the object stays where it is, with its count. It is marked if it is to be, and queued the
/// first time only.
#[verifier::spinoff_prover]
pub proof fn law_object_traced_in_place_stays<H: ImmixHooks, Q: ObjectQueue>(
    marking: &mut LXRSpace<H>,
    queue: &mut Q,
    object: ObjectReference,
    pause: Pause,
    mark: bool,
    result: ObjectReference,
    a: int,
)
    requires
        marking.wf(),
        inside(*marking, object@),
        inside(*marking, a),
        call_ensures(
            LXRSpace::<H>::trace_mark_rc_mature_object::<Q>,
            (marking, queue, object, pause, mark),
            result,
        ),
    ensures
        result == object,
        marked_at(*final(marking), object@) == (mark || marked_at(*old(marking), object@)),
        a >= object@ + 16 || object@ >= a + 16 ==> marked_at(*final(marking), a) == marked_at(
            *old(marking),
            a,
        ),
        mark && !marked_at(*old(marking), object@) ==> final(queue).queued() == old(queue).queued().push(object),
        !mark || marked_at(*old(marking), object@) ==> final(queue).queued() == old(queue).queued(),
        final(marking).rc == old(marking).rc,
        final(marking).immix.forwarding == old(marking).immix.forwarding,
        final(marking).immix.pr == old(marking).immix.pr,
{
    lemma_granules_apart(marking.immix.common.start as int, object@, a);
}

/// Addresses at least a granule apart lie in different granules.
proof fn lemma_granules_apart(start: int, x: int, y: int)
    requires
        start <= x,
        start <= y,
    ensures
        y >= x + 16 ==> (y - start) / 16 > (x - start) / 16,
        x >= y + 16 ==> (x - start) / 16 > (y - start) / 16,
{
}

/// In a trace that moves nothing, an object is marked and stays where it is; it is queued the first time only, and
/// not at all if it lies at the start of a line that an earlier object covers. Nothing else is marked.
#[verifier::spinoff_prover]
pub proof fn law_object_is_traced_without_moving<H: ImmixHooks, Q: ObjectQueue>(
    space: &mut LXRSpace<H>,
    queue: &mut Q,
    object: ObjectReference,
    result: ObjectReference,
    a: int,
)
    requires
        space.wf(),
        inside(*space, object@),
        inside(*space, a),
        call_ensures(
            LXRSpace::<H>::trace_object_without_moving_rc::<Q>,
            (space, queue, object),
            result,
        ),
    ensures
        result == object,
        marked_at(*final(space), object@),
        a >= object@ + 16 || object@ >= a + 16 ==> marked_at(*final(space), a) == marked_at(
            *old(space),
            a,
        ),
        final(space).rc == old(space).rc,
        final(space).immix.forwarding == old(space).immix.forwarding,
        final(queue).queued() == (if marked_at(*old(space), object@) || (object@ % 256 < 16
            && covered_at(*old(space), object@)) {
            old(queue).queued()
        } else {
            old(queue).queued().push(object)
        }),
{
    lemma_granules_apart(space.immix.common.start as int, object@, a);
}

/// The first hole from a line on is the only one that is first.
proof fn lemma_one_first_hole<H>(
    space: LXRSpace<H>,
    block: Block,
    from: int,
    i: int,
    m: int,
    j: int,
    n: int,
)
    requires
        run_of_hole(space, block, from, i, m),
        run_of_hole(space, block, from, j, n),
    ensures
        i == j && m == n,
{
    assert(space.hole_at(block, from, i));
    assert(space.hole_at(block, from, j));
    if m < n {
        assert(space.dead(block, m));
    }
    if n < m {
        assert(space.dead(block, n));
    }
}

/// Lines of a block with the same number are the same.
proof fn lemma_same_line(block: int, x: Line, y: Line)
    requires
        block % 256 == 0,
        x.wf() && y.wf(),
        block <= x@ && block <= y@,
        (x@ - block) / 256 == (y@ - block) / 256,
    ensures
        x == y,
{
}

/// Where the block of a line begins.
proof fn lemma_block_start(line: Line)
    requires
        line.wf(),
    ensures
        block_of(line@)@ <= line@,
        block_of(line@)@ % 256 == 0,
{
    let rest = line@ % 32768;
    assert(block_of(line@)@ == line@ - rest);
    assert((line@ - rest) % 32768 == 0);
}

/// Searches of the same space give back the same lines.
#[verifier::spinoff_prover]
proof fn lemma_same_lines<H: ImmixHooks>(
    space: LXRSpace<H>,
    copy: bool,
    from: Line,
    one: LXRSpace<H>,
    lines: Option<(Line, Line)>,
    other: LXRSpace<H>,
    others: Option<(Line, Line)>,
)
    requires
        from.wf(),
        next_lines(space, copy, from, one, lines),
        next_lines(space, copy, from, other, others),
    ensures
        lines == others,
{
    let block = block_of(from@);
    let first = from.index_in_block();
    lemma_block_start(from);
    match (lines, others) {
        (Some((s, e)), Some((t, f))) => {
            lemma_one_first_hole(
                space,
                block,
                first,
                (s@ - block@) / 256,
                (e@ - block@) / 256,
                (t@ - block@) / 256,
                (f@ - block@) / 256,
            );
            lemma_same_line(block@, s, t);
            lemma_same_line(block@, e, f);
        },
        (Some((s, e)), None) => {
            assert(space.hole_at(block, first, (s@ - block@) / 256));
        },
        (None, Some((t, f))) => {
            assert(space.hole_at(block, first, (t@ - block@) / 256));
        },
        (None, None) => {},
    }
}

/// The search for lines is the search by counts: in the same space, both give back the same lines, and leave the
/// same marks, log entries and counts.
#[verifier::spinoff_prover]
pub proof fn law_search_is_by_counts<H: ImmixHooks>(
    space: &mut LXRSpace<H>,
    same: &mut LXRSpace<H>,
    copy: bool,
    from: Line,
    lines: Option<(Line, Line)>,
    by_counts: Option<(Line, Line)>,
)
    requires
        space.wf(),
        *same == *space,
        from.wf(),
        inside(*space, from@),
        call_ensures(LXRSpace::<H>::get_next_available_lines, (space, copy, from), lines),
        call_ensures(LXRSpace::<H>::rc_get_next_available_lines, (same, copy, from), by_counts),
    ensures
        lines == by_counts,
        final(space).immix.mark@ == final(same).immix.mark@,
        final(space).immix.field_unlog@ == final(same).immix.field_unlog@,
        final(space).immix.line_reuse_counts@ == final(same).immix.line_reuse_counts@,
        final(space).immix.reused_lines_consumed == final(same).immix.reused_lines_consumed,
        final(space).rc == final(same).rc,
        final(space).immix.pr == final(same).immix.pr,
        final(space).immix.block_states == final(same).immix.block_states,
{
    lemma_same_lines(*space, copy, from, *final(space), lines, *final(same), by_counts);
}

/// Every log entry of the space is set, or cleared, and nothing else changes.
#[verifier::spinoff_prover]
pub proof fn law_all_log_bits_are_set_or_cleared<H: ImmixHooks>(
    setting: &mut LXRSpace<H>,
    clearing: &mut LXRSpace<H>,
    a: int,
)
    requires
        setting.wf(),
        clearing.wf(),
        call_ensures(LXRSpace::<H>::set_side_log_bits, (setting,), ()),
        call_ensures(LXRSpace::<H>::clear_side_log_bits, (clearing,), ()),
    ensures
        inside(*old(setting), a) ==> log_entry_at(*final(setting), a) == 1,
        inside(*old(clearing), a) ==> log_entry_at(*final(clearing), a) == 0,
        final(setting).rc == old(setting).rc,
        final(setting).immix.mark == old(setting).immix.mark,
        final(setting).immix.pr == old(setting).immix.pr,
        final(setting).immix.block_states == old(setting).immix.block_states,
        final(clearing).rc == old(clearing).rc,
        final(clearing).immix.mark == old(clearing).immix.mark,
        final(clearing).immix.pr == old(clearing).immix.pr,
        final(clearing).immix.block_states == old(clearing).immix.block_states,
{
}

/// What the space tells of itself is what it holds. The lines that mutators were given again are told in whole
/// pages, of sixteen lines each; the headroom is two percent of the pages handed out.
pub proof fn law_space_tells_what_it_holds<H: ImmixHooks>(
    space: LXRSpace<H>,
    inner: &ImmixSpace,
    common: &CommonSpace,
    pr: &BlockPageResource,
    map: &ChunkMap,
    scheduler: &GCWorkScheduler,
    movable: bool,
    in_defrag: bool,
    recycled: usize,
    headroom: usize,
    may_move: bool,
    name: &'static str,
)
    requires
        space.wf(),
        call_ensures(LXRSpace::<H>::inner, (&space,), inner),
        call_ensures(LXRSpace::<H>::common, (&space,), common),
        call_ensures(LXRSpace::<H>::get_page_resource, (&space,), pr),
        call_ensures(LXRSpace::<H>::chunk_map, (&space,), map),
        call_ensures(LXRSpace::<H>::scheduler, (&space,), scheduler),
        call_ensures(LXRSpace::<H>::is_movable, (&space,), movable),
        call_ensures(LXRSpace::<H>::in_defrag, (&space,), in_defrag),
        call_ensures(LXRSpace::<H>::get_mutator_recycled_lines_in_pages, (&space,), recycled),
        call_ensures(LXRSpace::<H>::defrag_headroom_pages, (&space,), headroom),
        call_ensures(LXRSpace::<H>::may_move_objects, (), may_move),
        call_ensures(LXRSpace::<H>::name, (&space,), name),
    ensures
        name == space.immix.common.name,
        *inner == space.immix,
        *common == space.immix.common,
        *pr == space.immix.pr,
        *map == space.immix.chunk_map,
        *scheduler == space.immix.scheduler,
        movable == !space.immix.space_args.never_move_objects,
        in_defrag == space.immix.defrag.in_defrag,
        recycled * 16 <= space.immix.reused_lines_consumed < (recycled + 1) * 16,
        headroom * 50 <= space.immix.pr.reserved_blocks * 8 < (headroom + 1) * 50,
        !may_move,
{
}

/// A new space: none of its blocks is handed out, all of them are free, nothing in it has a count, and counts
/// alone decide what is alive. The hooks installed are the ones it has, and nothing else changes by that.
#[verifier::spinoff_prover]
pub proof fn law_new_space_is_empty<H: ImmixHooks>(
    args: PlanCreateSpaceArgs,
    space_args: ImmixSpaceArgs,
    space: LXRSpace<H>,
    installing: &mut LXRSpace<H>,
    hooks: H,
    a: int,
)
    requires
        call_ensures(LXRSpace::<H>::new, (args, space_args), space),
        *installing == space,
        call_ensures(LXRSpace::<H>::install_hooks, (installing, hooks), ()),
        args.start@ <= a < args.start@ + args.blocks * 32768,
    ensures
        inside(space, a),
        count_at(space, a) == 0,
        state_at(space, a) == BlockState::Unallocated,
        log_entry_at(space, a) == 0,
        moved_to(space, a) is None,
        !marked_at(space, a),
        space.immix.pr.free@.len() == args.blocks,
        space.immix.pr.released@.len() == 0,
        space.immix.pr.reserved_blocks == 0,
        space.immix.reusable_blocks@.len() == 0,
        !space.is_end_of_satb_or_full_gc,
        space.hooks is None,
        final(installing).hooks == Some(hooks),
        final(installing).immix == space.immix,
        final(installing).rc == space.rc,
{
}

} // verus!
