//! What the operations of the immix space leave as it is, and what its hooks are told.
use crate::plan::pause::Pause;
use crate::plan::tracing::ObjectQueue;
use crate::policy::immix::block::Block;
use crate::policy::immix::line::Line;
use crate::policy::lxr::block::LXRBlockExt;
use crate::policy::lxr::immixspace::{ImmixHooks, LXRSpace};
use crate::scheduler::worker::GCWorker;
use crate::util::address::ObjectReference;
use crate::vm::object_model::{CopySemantics, ObjectModel};
use vstd::prelude::*;

verus! {

/// Whether the space lies where it lay, and is used as it was.
pub open spec fn same_place<H>(before: LXRSpace<H>, after: LXRSpace<H>) -> bool {
    &&& after.immix.common == before.immix.common
    &&& after.immix.space_args == before.immix.space_args
    &&& after.rc.start == before.rc.start
    &&& after.immix.forwarding.start == before.immix.forwarding.start
}

/// Whether the same blocks are free, given back, handed out and offered, in the same states.
pub open spec fn same_blocks<H>(before: LXRSpace<H>, after: LXRSpace<H>) -> bool {
    &&& after.immix.pr == before.immix.pr
    &&& after.immix.chunk_map == before.immix.chunk_map
    &&& after.immix.block_states == before.immix.block_states
    &&& after.immix.reusable_blocks == before.immix.reusable_blocks
    &&& same_plans_for_blocks(before, after)
}

/// Whether the same blocks are to be evacuated, hold objects promoted where they are and are logged, and
/// there is as much room for copies.
pub open spec fn same_plans_for_blocks<H>(before: LXRSpace<H>, after: LXRSpace<H>) -> bool {
    &&& after.immix.defrag_sources == before.immix.defrag_sources
    &&& after.immix.in_place_promoted == before.immix.in_place_promoted
    &&& after.immix.block_log == before.immix.block_log
    &&& after.immix.defrag == before.immix.defrag
}

/// Whether the same objects carry marks, counts and new places.
pub open spec fn same_objects<H>(before: LXRSpace<H>, after: LXRSpace<H>) -> bool {
    &&& after.immix.mark == before.immix.mark
    &&& after.immix.mark_state == before.immix.mark_state
    &&& after.immix.forwarding == before.immix.forwarding
    &&& after.rc == before.rc
}

/// Whether the same words are to be logged, and as many lines were used again.
pub open spec fn same_lines<H>(before: LXRSpace<H>, after: LXRSpace<H>) -> bool {
    &&& after.immix.field_unlog == before.immix.field_unlog
    &&& after.immix.line_reuse_counts == before.immix.line_reuse_counts
    &&& after.immix.reused_lines_consumed == before.immix.reused_lines_consumed
}

/// Whether the workers, the hooks and what decides what is alive are the same.
pub open spec fn same_surroundings<H>(before: LXRSpace<H>, after: LXRSpace<H>) -> bool {
    &&& after.immix.scheduler == before.immix.scheduler
    &&& after.hooks == before.hooks
    &&& after.is_end_of_satb_or_full_gc == before.is_end_of_satb_or_full_gc
}

/// The hooks are told of the block that is handed out, once, and whether it is for copies; where there is no
/// block, nothing is told. Handing out a block touches no object and no line of it.
#[verifier::spinoff_prover]
pub proof fn law_hooks_are_told_of_blocks<H: ImmixHooks>(
    clean: &mut LXRSpace<H>,
    reused: &mut LXRSpace<H>,
    copy: bool,
    block: Option<Block>,
    again: Option<Block>,
)
    requires
        clean.wf(),
        reused.wf(),
        call_ensures(LXRSpace::<H>::get_clean_block, (clean, copy), block),
        call_ensures(LXRSpace::<H>::get_reusable_block, (reused, copy), again),
    ensures
        block is None || old(clean).hooks is None ==> final(clean).hooks == old(clean).hooks,
        block is Some && old(clean).hooks is Some ==> final(clean).hooks is Some
            && H::clean_block_noted(old(clean).hooks->0, block->0, copy, final(clean).hooks->0),
        again is None || old(reused).hooks is None ==> final(reused).hooks == old(reused).hooks,
        again is Some && old(reused).hooks is Some ==> final(reused).hooks is Some
            && H::reusable_block_noted(
            old(reused).hooks->0,
            again->0,
            copy,
            final(reused).hooks->0,
        ),
        same_place(*old(clean), *final(clean)),
        same_objects(*old(clean), *final(clean)),
        same_lines(*old(clean), *final(clean)),
        final(clean).immix.block_log == old(clean).immix.block_log,
        final(clean).immix.scheduler == old(clean).immix.scheduler,
        final(clean).is_end_of_satb_or_full_gc == old(clean).is_end_of_satb_or_full_gc,
        same_place(*old(reused), *final(reused)),
        same_objects(*old(reused), *final(reused)),
        same_lines(*old(reused), *final(reused)),
        final(reused).immix.defrag_sources@ == old(reused).immix.defrag_sources@,
        final(reused).immix.in_place_promoted@ == old(reused).immix.in_place_promoted@,
        final(reused).immix.block_log == old(reused).immix.block_log,
        final(reused).immix.defrag == old(reused).immix.defrag,
        final(reused).immix.chunk_map == old(reused).immix.chunk_map,
        final(reused).immix.scheduler == old(reused).immix.scheduler,
        final(reused).is_end_of_satb_or_full_gc == old(reused).is_end_of_satb_or_full_gc,
{
}

/// Looking for lines to allocate into touches no block, no count and no new place of an object.
#[verifier::spinoff_prover]
pub proof fn law_search_leaves_blocks_alone<H: ImmixHooks>(
    space: &mut LXRSpace<H>,
    copy: bool,
    from: Line,
    lines: Option<(Line, Line)>,
)
    requires
        call_ensures(LXRSpace::<H>::rc_get_next_available_lines, (space, copy, from), lines),
    ensures
        same_place(*old(space), *final(space)),
        same_blocks(*old(space), *final(space)),
        same_surroundings(*old(space), *final(space)),
        final(space).rc == old(space).rc,
        final(space).immix.forwarding == old(space).immix.forwarding,
        final(space).immix.mark_state == old(space).immix.mark_state,
        lines is None ==> same_objects(*old(space), *final(space)) && same_lines(
            *old(space),
            *final(space),
        ),
{
}

/// Sweeping a block touches no object: no mark, no count and no new place. A block that is claimed for a
/// mutator only changes its state.
#[verifier::spinoff_prover]
pub proof fn law_sweeps_leave_objects_alone<H>(
    block: &Block,
    mature: &mut LXRSpace<H>,
    defrag: bool,
    released: bool,
    nursery: &mut LXRSpace<H>,
    also_released: bool,
    claiming: &mut LXRSpace<H>,
    claimed: bool,
)
    requires
        call_ensures(Block::rc_sweep_mature, (block, mature, defrag), released),
        call_ensures(Block::rc_sweep_nursery, (block, nursery), also_released),
        claiming.wf(),
        claiming.immix.has_block(*block),
        call_ensures(Block::attempt_mutator_reuse, (block, claiming), claimed),
    ensures
        same_place(*old(mature), *final(mature)),
        same_objects(*old(mature), *final(mature)),
        same_surroundings(*old(mature), *final(mature)),
        same_plans_for_blocks(*old(mature), *final(mature)),
        final(mature).immix.chunk_map == old(mature).immix.chunk_map,
        final(mature).immix.line_reuse_counts == old(mature).immix.line_reuse_counts,
        final(mature).immix.reused_lines_consumed == old(mature).immix.reused_lines_consumed,
        same_place(*old(nursery), *final(nursery)),
        same_objects(*old(nursery), *final(nursery)),
        same_surroundings(*old(nursery), *final(nursery)),
        final(nursery).immix.field_unlog@ == old(nursery).immix.field_unlog@,
        final(nursery).immix.defrag_sources == old(nursery).immix.defrag_sources,
        final(nursery).immix.block_log == old(nursery).immix.block_log,
        final(nursery).immix.defrag == old(nursery).immix.defrag,
        final(nursery).immix.chunk_map == old(nursery).immix.chunk_map,
        final(nursery).immix.line_reuse_counts == old(nursery).immix.line_reuse_counts,
        final(nursery).immix.reused_lines_consumed == old(nursery).immix.reused_lines_consumed,
        same_place(*old(claiming), *final(claiming)),
        same_objects(*old(claiming), *final(claiming)),
        same_lines(*old(claiming), *final(claiming)),
        same_surroundings(*old(claiming), *final(claiming)),
        same_plans_for_blocks(*old(claiming), *final(claiming)),
        final(claiming).immix.pr == old(claiming).immix.pr,
        final(claiming).immix.chunk_map == old(claiming).immix.chunk_map,
        final(claiming).immix.reusable_blocks == old(claiming).immix.reusable_blocks,
{
}

/// Tracing an object touches no block and no line; one that is traced where it is has the same count, and
/// has not been moved.
#[verifier::spinoff_prover]
pub proof fn law_tracing_leaves_blocks_alone<H, Q: ObjectQueue, VM: ObjectModel>(
    marking: &mut LXRSpace<H>,
    queue: &mut Q,
    staying: &mut LXRSpace<H>,
    other_queue: &mut Q,
    moving: &mut LXRSpace<H>,
    third_queue: &mut Q,
    worker: &mut GCWorker<VM>,
    object: ObjectReference,
    semantics: CopySemantics,
    pause: Pause,
    mark: bool,
    one: ObjectReference,
    two: ObjectReference,
    three: ObjectReference,
)
    requires
        call_ensures(
            LXRSpace::<H>::trace_object_without_moving_rc::<Q>,
            (marking, queue, object),
            one,
        ),
        call_ensures(
            LXRSpace::<H>::trace_mark_rc_mature_object::<Q>,
            (staying, other_queue, object, pause, mark),
            two,
        ),
        call_ensures(
            LXRSpace::<H>::trace_forward_rc_mature_object::<Q, VM>,
            (moving, third_queue, object, semantics, pause, worker),
            three,
        ),
    ensures
        same_place(*old(marking), *final(marking)),
        same_blocks(*old(marking), *final(marking)),
        same_lines(*old(marking), *final(marking)),
        same_surroundings(*old(marking), *final(marking)),
        final(marking).rc == old(marking).rc,
        final(marking).immix.forwarding == old(marking).immix.forwarding,
        final(marking).immix.mark_state == old(marking).immix.mark_state,
        same_place(*old(staying), *final(staying)),
        same_blocks(*old(staying), *final(staying)),
        same_lines(*old(staying), *final(staying)),
        same_surroundings(*old(staying), *final(staying)),
        final(staying).rc == old(staying).rc,
        final(staying).immix.forwarding == old(staying).immix.forwarding,
        final(staying).immix.mark_state == old(staying).immix.mark_state,
        same_place(*old(moving), *final(moving)),
        same_blocks(*old(moving), *final(moving)),
        same_lines(*old(moving), *final(moving)),
        same_surroundings(*old(moving), *final(moving)),
        final(moving).immix.mark_state == old(moving).immix.mark_state,
        final(moving).rc.inc_buffer_size == old(moving).rc.inc_buffer_size,
{
}

/// The start and the end of a pause, and making blocks available, touch no object and no line, except that no
/// line counts as used again once the pause is over; blocks given back are available after the others, in
/// the order in which they were given back.
#[verifier::spinoff_prover]
pub proof fn law_pauses_leave_objects_alone<H>(
    starting: &mut LXRSpace<H>,
    pause: Pause,
    ending: &mut LXRSpace<H>,
    flushing: &mut LXRSpace<H>,
)
    requires
        call_ensures(LXRSpace::<H>::prepare_rc, (starting, pause), ()),
        call_ensures(LXRSpace::<H>::release_rc, (ending,), ()),
        call_ensures(LXRSpace::<H>::flush_page_resource, (flushing,), ()),
    ensures
        same_place(*old(starting), *final(starting)),
        same_plans_for_blocks(*old(starting), *final(starting)),
        same_lines(*old(starting), *final(starting)),
        final(starting).immix.mark == old(starting).immix.mark,
        final(starting).immix.forwarding == old(starting).immix.forwarding,
        final(starting).rc == old(starting).rc,
        final(starting).hooks == old(starting).hooks,
        final(starting).immix.chunk_map == old(starting).immix.chunk_map,
        final(starting).immix.block_states == old(starting).immix.block_states,
        final(starting).immix.reusable_blocks == old(starting).immix.reusable_blocks,
        final(starting).immix.pr.reserved_blocks == old(starting).immix.pr.reserved_blocks,
        pause != Pause::RefCount ==> final(starting).immix.pr.free@ == old(starting).immix.pr.free@
            + old(starting).immix.pr.released@,
        same_place(*old(ending), *final(ending)),
        same_plans_for_blocks(*old(ending), *final(ending)),
        final(ending).immix.field_unlog == old(ending).immix.field_unlog,
        final(ending).immix.line_reuse_counts == old(ending).immix.line_reuse_counts,
        final(ending).immix.forwarding == old(ending).immix.forwarding,
        final(ending).rc.counts == old(ending).rc.counts,
        final(ending).rc.straddle == old(ending).rc.straddle,
        final(ending).hooks == old(ending).hooks,
        final(ending).immix.scheduler == old(ending).immix.scheduler,
        final(ending).immix.chunk_map == old(ending).immix.chunk_map,
        final(ending).immix.reusable_blocks == old(ending).immix.reusable_blocks,
        final(ending).immix.pr.reserved_blocks == old(ending).immix.pr.reserved_blocks,
        final(ending).immix.pr.free@ == old(ending).immix.pr.free@ + old(ending).immix.pr.released@,
        same_place(*old(flushing), *final(flushing)),
        same_plans_for_blocks(*old(flushing), *final(flushing)),
        same_objects(*old(flushing), *final(flushing)),
        same_lines(*old(flushing), *final(flushing)),
        same_surroundings(*old(flushing), *final(flushing)),
        final(flushing).immix.block_states == old(flushing).immix.block_states,
        final(flushing).immix.reusable_blocks == old(flushing).immix.reusable_blocks,
        final(flushing).immix.chunk_map == old(flushing).immix.chunk_map,
        final(flushing).immix.pr.released@.len() == 0,
        final(flushing).immix.pr.reserved_blocks == old(flushing).immix.pr.reserved_blocks,
        final(flushing).immix.pr.free@ == old(flushing).immix.pr.free@ + old(flushing).immix.pr.released@,
{
}

/// Clearing or filling one table of a block leaves the other tables as they are.
#[verifier::spinoff_prover]
pub proof fn law_tables_are_filled_alone<H>(
    block: &Block,
    counts: &mut LXRSpace<H>,
    covered: &mut LXRSpace<H>,
    marks: &mut LXRSpace<H>,
    all_marks: &mut LXRSpace<H>,
    words: &mut LXRSpace<H>,
    logging: &mut LXRSpace<H>,
    fresh: bool,
    unlogging: &mut LXRSpace<H>,
)
    requires
        call_ensures(Block::clear_rc_table, (block, counts), ()),
        call_ensures(Block::clear_striddle_table, (block, covered), ()),
        call_ensures(Block::clear_mark_table, (block, marks), ()),
        call_ensures(Block::initialize_mark_table_as_marked, (block, all_marks), ()),
        call_ensures(Block::initialize_field_unlog_table_as_unlogged, (block, words), ()),
        call_ensures(Block::log, (block, logging), fresh),
        call_ensures(Block::unlog, (block, unlogging), ()),
    ensures
        same_place(*old(counts), *final(counts)),
        same_blocks(*old(counts), *final(counts)),
        same_surroundings(*old(counts), *final(counts)),
        same_lines(*old(counts), *final(counts)),
        final(counts).immix.mark == old(counts).immix.mark,
        final(counts).immix.mark_state == old(counts).immix.mark_state,
        final(counts).immix.forwarding == old(counts).immix.forwarding,
        final(counts).rc.straddle == old(counts).rc.straddle,
        final(counts).rc.inc_buffer_size == old(counts).rc.inc_buffer_size,
        same_place(*old(covered), *final(covered)),
        same_blocks(*old(covered), *final(covered)),
        same_surroundings(*old(covered), *final(covered)),
        same_lines(*old(covered), *final(covered)),
        final(covered).immix.mark == old(covered).immix.mark,
        final(covered).immix.mark_state == old(covered).immix.mark_state,
        final(covered).immix.forwarding == old(covered).immix.forwarding,
        final(covered).rc.counts == old(covered).rc.counts,
        final(covered).rc.inc_buffer_size == old(covered).rc.inc_buffer_size,
        same_place(*old(marks), *final(marks)),
        same_blocks(*old(marks), *final(marks)),
        same_surroundings(*old(marks), *final(marks)),
        same_lines(*old(marks), *final(marks)),
        final(marks).immix.mark_state == old(marks).immix.mark_state,
        final(marks).immix.forwarding == old(marks).immix.forwarding,
        final(marks).rc == old(marks).rc,
        same_place(*old(all_marks), *final(all_marks)),
        same_blocks(*old(all_marks), *final(all_marks)),
        same_surroundings(*old(all_marks), *final(all_marks)),
        same_lines(*old(all_marks), *final(all_marks)),
        final(all_marks).immix.mark_state == old(all_marks).immix.mark_state,
        final(all_marks).immix.forwarding == old(all_marks).immix.forwarding,
        final(all_marks).rc == old(all_marks).rc,
        same_place(*old(words), *final(words)),
        same_blocks(*old(words), *final(words)),
        same_surroundings(*old(words), *final(words)),
        same_objects(*old(words), *final(words)),
        final(words).immix.line_reuse_counts == old(words).immix.line_reuse_counts,
        final(words).immix.reused_lines_consumed == old(words).immix.reused_lines_consumed,
        same_place(*old(logging), *final(logging)),
        same_surroundings(*old(logging), *final(logging)),
        same_objects(*old(logging), *final(logging)),
        same_lines(*old(logging), *final(logging)),
        final(logging).immix.pr == old(logging).immix.pr,
        final(logging).immix.block_states == old(logging).immix.block_states,
        final(logging).immix.reusable_blocks == old(logging).immix.reusable_blocks,
        final(logging).immix.defrag_sources == old(logging).immix.defrag_sources,
        final(logging).immix.in_place_promoted == old(logging).immix.in_place_promoted,
        final(logging).immix.defrag == old(logging).immix.defrag,
        final(logging).immix.chunk_map == old(logging).immix.chunk_map,
        same_place(*old(unlogging), *final(unlogging)),
        same_surroundings(*old(unlogging), *final(unlogging)),
        same_objects(*old(unlogging), *final(unlogging)),
        same_lines(*old(unlogging), *final(unlogging)),
        final(unlogging).immix.pr == old(unlogging).immix.pr,
        final(unlogging).immix.block_states == old(unlogging).immix.block_states,
        final(unlogging).immix.reusable_blocks == old(unlogging).immix.reusable_blocks,
        final(unlogging).immix.defrag_sources == old(unlogging).immix.defrag_sources,
        final(unlogging).immix.in_place_promoted == old(unlogging).immix.in_place_promoted,
        final(unlogging).immix.defrag == old(unlogging).immix.defrag,
        final(unlogging).immix.chunk_map == old(unlogging).immix.chunk_map,
{
}

/// Marking an object, taking its mark away, and setting and clearing log bits touch nothing else.
#[verifier::spinoff_prover]
pub proof fn law_marks_and_log_bits_are_set_alone<H>(
    object: ObjectReference,
    marking: &mut LXRSpace<H>,
    fresh: bool,
    unmarking: &mut LXRSpace<H>,
    had: bool,
    setting: &mut LXRSpace<H>,
    clearing: &mut LXRSpace<H>,
)
    requires
        call_ensures(LXRSpace::<H>::attempt_mark, (marking, object), fresh),
        call_ensures(LXRSpace::<H>::unmark, (unmarking, object), had),
        call_ensures(LXRSpace::<H>::set_side_log_bits, (setting,), ()),
        call_ensures(LXRSpace::<H>::clear_side_log_bits, (clearing,), ()),
    ensures
        same_place(*old(marking), *final(marking)),
        same_blocks(*old(marking), *final(marking)),
        same_surroundings(*old(marking), *final(marking)),
        same_lines(*old(marking), *final(marking)),
        final(marking).immix.mark_state == old(marking).immix.mark_state,
        final(marking).immix.forwarding == old(marking).immix.forwarding,
        final(marking).rc == old(marking).rc,
        same_place(*old(unmarking), *final(unmarking)),
        same_blocks(*old(unmarking), *final(unmarking)),
        same_surroundings(*old(unmarking), *final(unmarking)),
        same_lines(*old(unmarking), *final(unmarking)),
        final(unmarking).immix.mark_state == old(unmarking).immix.mark_state,
        final(unmarking).immix.forwarding == old(unmarking).immix.forwarding,
        final(unmarking).rc == old(unmarking).rc,
        same_place(*old(setting), *final(setting)),
        same_blocks(*old(setting), *final(setting)),
        same_surroundings(*old(setting), *final(setting)),
        same_objects(*old(setting), *final(setting)),
        final(setting).immix.line_reuse_counts == old(setting).immix.line_reuse_counts,
        final(setting).immix.reused_lines_consumed == old(setting).immix.reused_lines_consumed,
        same_place(*old(clearing), *final(clearing)),
        same_blocks(*old(clearing), *final(clearing)),
        same_surroundings(*old(clearing), *final(clearing)),
        same_objects(*old(clearing), *final(clearing)),
        final(clearing).immix.line_reuse_counts == old(clearing).immix.line_reuse_counts,
        final(clearing).immix.reused_lines_consumed == old(clearing).immix.reused_lines_consumed,
{
}

} // verus!
