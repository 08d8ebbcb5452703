use mmtk::plan::pause::Pause;
use mmtk::plan::tracing::VectorObjectQueue;
use mmtk::policy::immix::block::{Block, BlockState};
use mmtk::policy::immix::immixspace::{ImmixSpaceArgs, PlanCreateSpaceArgs};
use mmtk::policy::immix::line::Line;
use mmtk::policy::lxr::immixspace::NoHooks;
use mmtk::policy::lxr::{LXRBlockExt, LXRSpace};
use mmtk::scheduler::worker::GCWorker;
use mmtk::scheduler::WorkPacket;
use mmtk::util::address::{Address, ObjectReference};
use mmtk::util::metadata::side_metadata::SideMetadataSpec;
use mmtk::util::object_forwarding::FORWARDED;
use mmtk::util::test_util::mock_vm::{MockHooks, MockVM};
use mmtk::vm::object_model::CopySemantics;

const START: usize = 0x4000_0000;
const BLOCK: usize = 32768;

fn args(blocks: usize) -> PlanCreateSpaceArgs {
    PlanCreateSpaceArgs {
        name: "immix",
        start: Address(START),
        blocks,
        needs_log_bit: true,
        workers: 2,
    }
}

fn space<H>(blocks: usize) -> LXRSpace<H> {
    LXRSpace::new(args(blocks), ImmixSpaceArgs { never_move_objects: false })
}

fn block(i: usize) -> Block {
    Block(Address(START + i * BLOCK))
}

fn object(offset: usize) -> ObjectReference {
    ObjectReference(START + offset)
}

fn line(i: usize) -> Line {
    Line(Address(START + i * 256))
}

/// Gives a count to the first object of each of the lines of the first block.
fn occupy<H>(s: &mut LXRSpace<H>, lines: &[usize]) {
    for l in lines {
        s.rc.set(object(l * 256), 1);
    }
}

#[test]
fn a_new_space_is_empty() {
    let s: LXRSpace<NoHooks> = space(4);
    assert_eq!(s.name(), "immix");
    assert!(s.is_movable());
    assert!(!s.in_defrag());
    assert!(!s.is_end_of_satb_or_full_gc);
    assert_eq!(s.inner().pr.free.len(), 4);
    assert_eq!(s.get_page_resource().reserved_blocks, 0);
    assert_eq!(
        s.common().extra_metadata,
        vec![
            SideMetadataSpec::RcStraddleLines,
            SideMetadataSpec::BlockLog,
            SideMetadataSpec::NurseryPromotionState,
            SideMetadataSpec::LineReuseCount,
        ]
    );
    assert_eq!(s.scheduler().worker_group.workers_shared.len(), 2);
    assert_eq!(s.chunk_map().allocated, vec![false]);
    assert_eq!(s.defrag_headroom_pages(), 0);
    assert!(!LXRSpace::<NoHooks>::may_move_objects());
    let fixed: LXRSpace<NoHooks> =
        LXRSpace::new(args(1), ImmixSpaceArgs { never_move_objects: true });
    assert!(!fixed.is_movable());
}

#[test]
fn clean_blocks_are_handed_out_once() {
    let mut s: LXRSpace<MockHooks> = space(3);
    s.install_hooks(MockHooks::new(false));
    let a = s.get_clean_block(false).unwrap();
    let b = s.get_clean_block(true).unwrap();
    let c = s.get_clean_block(false).unwrap();
    assert!(a != b && b != c && a != c);
    assert_eq!(s.get_clean_block(false), None);
    assert_eq!(a.get_state(&s.immix), BlockState::Nursery);
    assert_eq!(b.get_state(&s.immix), BlockState::Unmarked);
    assert_eq!(s.hooks.as_ref().unwrap().clean, vec![(a, false), (b, true), (c, false)]);
    assert_eq!(s.chunk_map().allocated, vec![true]);
    assert_eq!(s.immix.pr.reserved_blocks, 3);
}

#[test]
fn headroom_is_two_percent_of_the_reserved_pages() {
    let mut s: LXRSpace<NoHooks> = space(16);
    for _ in 0..16 {
        s.get_clean_block(false).unwrap();
    }
    // 128 pages are reserved.
    assert_eq!(s.defrag_headroom_pages(), 2);
}

#[test]
fn clean_blocks_count_against_the_room_for_copies() {
    let mut s: LXRSpace<NoHooks> = space(4);
    s.immix.defrag.in_defrag = true;
    s.immix.defrag.available_clean_pages = 20;
    s.get_clean_block(false).unwrap();
    assert_eq!(s.immix.defrag.available_clean_pages, 20);
    s.get_clean_block(true).unwrap();
    assert_eq!(s.immix.defrag.available_clean_pages, 12);
    s.get_clean_block(true).unwrap();
    assert_eq!(s.immix.defrag.available_clean_pages, 4);
    assert!(!s.immix.defrag.exhausted);
    s.get_clean_block(true).unwrap();
    assert_eq!(s.immix.defrag.available_clean_pages, 0);
    assert!(s.immix.defrag.exhausted);
}

#[test]
fn released_blocks_wait_for_the_flush() {
    let mut s: LXRSpace<NoHooks> = space(1);
    let b = s.get_clean_block(false).unwrap();
    assert!(b.rc_sweep_nursery(&mut s));
    assert_eq!(b.get_state(&s.immix), BlockState::Unallocated);
    assert_eq!(s.get_clean_block(false), None);
    s.flush_page_resource();
    assert_eq!(s.get_clean_block(false), Some(b));
}

#[test]
fn nursery_block_with_survivors_becomes_reusable() {
    let mut s: LXRSpace<NoHooks> = space(1);
    let b = s.get_clean_block(false).unwrap();
    s.immix.in_place_promoted[0] = true;
    s.rc.set(object(0), 1);
    assert!(!b.rc_sweep_nursery(&mut s));
    assert_eq!(b.get_state(&s.immix), BlockState::Reusable { unavailable_lines: 1 });
    assert!(!b.is_in_place_promoted(&s.immix));
    assert_eq!(s.immix.reusable_blocks, vec![b]);
}

#[test]
fn mature_sweep_decides_by_state_counts_and_holes() {
    // Nothing happens to a block that is not handed out or holds new objects.
    let mut s: LXRSpace<NoHooks> = space(2);
    assert!(!block(0).rc_sweep_mature(&mut s, true));
    let b = s.get_clean_block(false).unwrap();
    assert!(!b.rc_sweep_mature(&mut s, true));
    assert_eq!(b.get_state(&s.immix), BlockState::Nursery);

    // A block without counts is given back, and its log entries are cleared.
    let mut s: LXRSpace<NoHooks> = space(1);
    let b = s.get_clean_block(true).unwrap();
    b.initialize_field_unlog_table_as_unlogged(&mut s);
    assert!(b.rc_sweep_mature(&mut s, false));
    assert_eq!(b.get_state(&s.immix), BlockState::Unallocated);
    assert_eq!(s.immix.field_unlog.load(0), 0);
    assert_eq!(s.immix.pr.released, vec![b]);

    // One with counts is given back only if it is to be defragmented.
    let mut s: LXRSpace<NoHooks> = space(1);
    let b = s.get_clean_block(true).unwrap();
    occupy(&mut s, &[5]);
    assert!(!b.rc_sweep_mature(&mut s, false));
    assert_eq!(b.get_state(&s.immix), BlockState::Reusable { unavailable_lines: 1 });
    assert_eq!(s.immix.reusable_blocks, vec![b]);
    // It is offered once.
    assert!(!b.rc_sweep_mature(&mut s, false));
    assert_eq!(s.immix.reusable_blocks, vec![b]);
    assert!(b.rc_sweep_mature(&mut s, true));
    assert_eq!(b.get_state(&s.immix), BlockState::Unallocated);

    // A mutator's block is left alone.
    let mut s: LXRSpace<NoHooks> = space(1);
    let b = s.get_clean_block(true).unwrap();
    b.set_state(&mut s.immix, BlockState::Reusing);
    assert!(!b.rc_sweep_mature(&mut s, true));
    assert_eq!(b.get_state(&s.immix), BlockState::Reusing);

    // Without holes, nothing is offered.
    let mut s: LXRSpace<NoHooks> = space(1);
    let b = s.get_clean_block(true).unwrap();
    let every_line: Vec<usize> = (0..128).collect();
    occupy(&mut s, &every_line);
    assert!(!b.rc_sweep_mature(&mut s, false));
    assert_eq!(b.get_state(&s.immix), BlockState::Unmarked);
    assert!(s.immix.reusable_blocks.is_empty());
}

#[test]
fn reusable_blocks_are_taken_from_the_last_offered() {
    let mut s: LXRSpace<MockHooks> = space(4);
    s.install_hooks(MockHooks::new(false));
    for _ in 0..4 {
        s.get_clean_block(true).unwrap();
    }
    let ready = BlockState::Reusable { unavailable_lines: 1 };
    for i in 0..3 {
        block(i).set_state(&mut s.immix, ready);
    }
    // The fourth is offered, but not reusable any more; the third is to be evacuated.
    s.immix.reusable_blocks = vec![block(0), block(1), block(2), block(3)];
    block(2).set_as_defrag_source(&mut s.immix, true);
    assert_eq!(s.get_reusable_block(false), Some(block(1)));
    assert_eq!(block(1).get_state(&s.immix), BlockState::Reusing);
    assert_eq!(s.immix.reusable_blocks, vec![block(0)]);
    assert_eq!(s.hooks.as_ref().unwrap().reused, vec![(block(1), false)]);
    assert_eq!(s.get_reusable_block(true), Some(block(0)));
    assert_eq!(block(0).get_state(&s.immix), BlockState::Unmarked);
    assert_eq!(s.get_reusable_block(false), None);
}

#[test]
fn hole_search_skips_the_line_after_an_object() {
    let mut s: LXRSpace<NoHooks> = space(1);
    occupy(&mut s, &[0, 10]);
    // Line 1 follows an object, so that the hole begins at line 2.
    let (start, end) = s.rc_get_next_available_lines(true, line(0)).unwrap();
    assert_eq!((start, end), (line(2), line(10)));
    let (start, end) = s.rc_get_next_available_lines(true, end).unwrap();
    assert_eq!((start, end), (line(12), line(128)));
    assert_eq!(s.immix.reused_lines_consumed, 0);
}

#[test]
fn hole_search_takes_the_first_line_of_a_block() {
    let mut s: LXRSpace<NoHooks> = space(1);
    occupy(&mut s, &[1]);
    assert_eq!(s.get_next_available_lines(false, line(0)), Some((line(0), line(1))));
    // From another line on, the line before is not known to be free.
    assert_eq!(s.get_next_available_lines(false, line(2)), Some((line(3), line(128))));
    assert_eq!(s.immix.reused_lines_consumed, 126);
    assert_eq!(s.get_mutator_recycled_lines_in_pages(), 7);
}

#[test]
fn hole_search_agrees_with_has_holes() {
    let mut s: LXRSpace<NoHooks> = space(1);
    assert!(block(0).has_holes(&s));
    let odd: Vec<usize> = (0..128).filter(|l| l % 2 == 0).collect();
    occupy(&mut s, &odd);
    // Single free lines are no holes.
    assert!(!block(0).has_holes(&s));
    assert_eq!(s.rc_get_next_available_lines(false, line(0)), None);
    assert_eq!(block(0).calc_dead_lines(&s), 64);
    s.rc.set(object(0), 0);
    assert!(block(0).has_holes(&s));
    assert_eq!(s.rc_get_next_available_lines(true, line(0)), Some((line(0), line(2))));
}

#[test]
fn lines_given_out_are_prepared() {
    let mut s: LXRSpace<MockHooks> = space(1);
    s.install_hooks(MockHooks::new(true));
    occupy(&mut s, &[4]);
    block(0).initialize_field_unlog_table_as_unlogged(&mut s);
    s.immix.line_reuse_counts.store(1, 255);
    assert_eq!(s.rc_get_next_available_lines(false, line(0)), Some((line(0), line(4))));
    assert_eq!(s.immix.field_unlog.load(0), 0);
    assert_eq!(s.immix.field_unlog.load(4 * 32 - 1), 0);
    assert_eq!(s.immix.field_unlog.load(4 * 32), 1);
    assert_eq!(s.immix.mark.load(0), 1);
    assert_eq!(s.immix.mark.load(4 * 16 - 1), 1);
    assert_eq!(s.immix.mark.load(4 * 16), 0);
    assert_eq!(s.immix.line_reuse_counts.load(0), 1);
    // The count starts again from zero.
    assert_eq!(s.immix.line_reuse_counts.load(1), 0);
    assert_eq!(s.immix.line_reuse_counts.load(4), 0);
    assert_eq!(s.immix.reused_lines_consumed, 4);
}

#[test]
fn copies_get_unlogged_lines() {
    let mut s: LXRSpace<NoHooks> = space(1);
    assert_eq!(s.rc_get_next_available_lines(true, line(0)), Some((line(0), line(128))));
    assert_eq!(s.immix.field_unlog.load(0), 1);
    // No trace is in progress, so that nothing is marked.
    assert_eq!(s.immix.mark.load(0), 0);
    assert_eq!(s.immix.line_reuse_counts.load(0), 0);
}

#[test]
fn block_tables() {
    let mut s: LXRSpace<NoHooks> = space(2);
    let b = block(1);
    let o = object(BLOCK + 64);
    assert!(b.rc_dead(&s));
    assert_eq!(b.calc_dead_lines(&s), 128);
    s.rc.set(o, 3);
    s.rc.straddle.store(130, 1);
    assert!(!b.rc_dead(&s));
    assert!(block(0).rc_dead(&s));
    assert_eq!(b.calc_dead_lines(&s), 127);
    b.clear_rc_table(&mut s);
    assert!(b.rc_dead(&s));
    b.clear_striddle_table(&mut s);
    assert_eq!(s.rc.straddle.load(130), 0);
    b.initialize_mark_table_as_marked(&mut s);
    assert!(s.is_marked(o));
    assert!(!s.is_marked(object(64)));
    b.clear_mark_table(&mut s);
    assert!(!s.is_marked(o));
    assert!(b.log(&mut s));
    assert!(!b.log(&mut s));
    b.unlog(&mut s);
    assert!(b.log(&mut s));
    assert!(!b.attempt_mutator_reuse(&mut s));
    s.get_clean_block(true).unwrap();
    b.set_state(&mut s.immix, BlockState::Reusable { unavailable_lines: 1 });
    assert!(b.attempt_mutator_reuse(&mut s));
    assert_eq!(b.get_state(&s.immix), BlockState::Reusing);
}

#[test]
fn marks() {
    let mut s: LXRSpace<NoHooks> = space(1);
    let o = object(32);
    assert!(s.attempt_mark(o));
    assert!(!s.attempt_mark(o));
    assert!(s.is_marked(o));
    assert!(!s.is_marked(object(48)));
    assert!(s.unmark(o));
    assert!(!s.unmark(o));
    assert!(!s.is_marked(o));
    // It can be marked again, as if for the first time.
    assert!(s.attempt_mark(o));
    assert!(s.is_marked(o));
    assert!(!s.attempt_mark(o));
}

#[test]
fn tracing_queues_an_object_once() {
    let mut s: LXRSpace<NoHooks> = space(1);
    let mut q = VectorObjectQueue::new();
    assert_eq!(s.trace_object(&mut q, object(32)), object(32));
    assert_eq!(s.trace_object_without_moving_rc(&mut q, object(32)), object(32));
    assert_eq!(q.take(), vec![object(32)]);
    // The start of a line that a large object covers is marked, and not queued.
    s.rc.straddle.store(2, 1);
    s.trace_object_without_moving_rc(&mut q, object(512));
    assert!(s.is_marked(object(512)));
    assert!(q.take().is_empty());
    // An object further on is queued.
    s.trace_object_without_moving_rc(&mut q, object(512 + 16));
    assert_eq!(q.take(), vec![object(512 + 16)]);
}

#[test]
fn objects_of_evacuated_blocks_are_moved() {
    let mut s: LXRSpace<NoHooks> = space(2);
    let o = object(64);
    let new = object(BLOCK);
    s.rc.set(o, 2);
    s.attempt_mark(o);
    block(0).set_as_defrag_source(&mut s.immix, true);
    let mut worker = GCWorker::new(0, MockVM::new(1024, START + BLOCK, START + 2 * BLOCK));
    let mut q = VectorObjectQueue::new();
    let to =
        s.rc_trace_object(&mut q, o, CopySemantics::DefaultCopy, Pause::Full, true, &mut worker);
    assert_eq!(to, new);
    assert_eq!(q.take(), vec![new]);
    assert_eq!(s.rc.count(new), 2);
    assert!(s.is_marked(new));
    assert!(!s.is_marked(o));
    assert_eq!(s.get_forwarded_object(o), Some(new));
    assert_eq!(s.immix.forwarding.status.load(4), FORWARDED);
    // The copy covers lines 129 to 131, and ends with them.
    assert_eq!(s.rc.straddle.load(128), 0);
    assert_eq!(s.rc.straddle.load(129), 1);
    assert_eq!(s.rc.straddle.load(131), 1);
    assert_eq!(s.rc.straddle.load(132), 0);
    assert_eq!(s.rc.count(object(BLOCK + 256)), 1);
    // Tracing it again gives the same copy, and queues nothing.
    let again = s.trace_forward_rc_mature_object(
        &mut q,
        o,
        CopySemantics::DefaultCopy,
        Pause::Full,
        &mut worker,
    );
    assert_eq!(again, new);
    assert!(q.take().is_empty());
    assert_eq!(worker.object_model.copy_cursor, START + BLOCK + 1024);
}

#[test]
fn other_objects_are_marked_where_they_are() {
    let mut s: LXRSpace<NoHooks> = space(1);
    let o = object(64);
    s.rc.set(o, 1);
    let mut worker = GCWorker::new(0, MockVM::new(16, START, START));
    let mut q = VectorObjectQueue::new();
    let same =
        s.rc_trace_object(&mut q, o, CopySemantics::DefaultCopy, Pause::Full, false, &mut worker);
    assert_eq!(same, o);
    assert!(!s.is_marked(o));
    assert!(q.take().is_empty());
    s.rc_trace_object(&mut q, o, CopySemantics::DefaultCopy, Pause::Full, true, &mut worker);
    s.trace_mark_rc_mature_object(&mut q, o, Pause::Full, true);
    assert!(s.is_marked(o));
    assert_eq!(q.take(), vec![o]);
}

#[test]
fn liveness_by_counts_and_by_marks() {
    let mut s: LXRSpace<NoHooks> = space(2);
    let o = object(64);
    // Counts alone decide.
    assert!(!s.is_live(o));
    s.rc.set(o, 1);
    assert!(s.is_live(o));
    assert!(!s.is_reachable(o));
    // A trace is complete: an object that it has not marked is dead.
    s.is_end_of_satb_or_full_gc = true;
    assert!(!s.is_live(o));
    s.attempt_mark(o);
    assert!(s.is_live(o));
    assert!(s.is_reachable(o));
    // Marked, but without a count.
    s.rc.set(o, 0);
    assert!(!s.is_live(o));
    s.rc.set(o, 1);
    // Left behind in a block to be evacuated.
    block(0).set_as_defrag_source(&mut s.immix, true);
    assert!(!s.is_live(o));
    assert!(s.is_reachable(o));
    // Moved: the copy counts.
    let mut worker = GCWorker::new(0, MockVM::new(16, START + BLOCK, START + 2 * BLOCK));
    let mut q = VectorObjectQueue::new();
    let new = s.trace_forward_rc_mature_object(
        &mut q,
        o,
        CopySemantics::DefaultCopy,
        Pause::Full,
        &mut worker,
    );
    assert!(s.is_live(o));
    assert!(s.is_reachable(o));
    s.unmark(new);
    assert!(!s.is_live(o));
    assert!(!s.is_reachable(o));
    s.is_end_of_satb_or_full_gc = false;
    s.rc.set(o, 0);
    // While counts decide, an object that was moved is alive.
    assert!(s.is_live(o));
}

#[test]
fn pauses() {
    let mut s: LXRSpace<NoHooks> = space(1);
    let b = s.get_clean_block(false).unwrap();
    b.rc_sweep_nursery(&mut s);
    s.immix.mark_state = 2;
    s.prepare_rc(Pause::RefCount);
    assert_eq!(s.immix.mark_state, 2);
    assert_eq!(s.immix.pr.released, vec![b]);
    assert!(!s.is_end_of_satb_or_full_gc);
    s.prepare_rc(Pause::InitialMark);
    assert_eq!(s.immix.mark_state, 1);
    assert_eq!(s.immix.pr.free, vec![b]);
    assert!(!s.is_end_of_satb_or_full_gc);
    s.prepare_rc(Pause::FinalMark);
    assert!(s.is_end_of_satb_or_full_gc);
    assert!(s.scheduler().worker_group.workers_shared[0].designated_work.is_empty());
    s.rc.inc_buffer_size = 7;
    s.immix.reused_lines_consumed = 9;
    s.release_rc();
    assert!(!s.is_end_of_satb_or_full_gc);
    assert_eq!(s.rc.inc_buffer_size, 0);
    assert_eq!(s.immix.reused_lines_consumed, 0);
    s.prepare_rc(Pause::Full);
    assert!(s.is_end_of_satb_or_full_gc);
    for w in &s.scheduler().worker_group.workers_shared {
        assert_eq!(w.designated_work.len(), 1);
        assert!(matches!(w.designated_work[0], WorkPacket::PrepareCollector));
    }
}

#[test]
fn side_log_bits() {
    let mut s: LXRSpace<NoHooks> = space(1);
    s.set_side_log_bits();
    assert!(s.immix.field_unlog.entries.iter().all(|b| *b == 1));
    s.clear_side_log_bits();
    assert!(s.immix.field_unlog.entries.iter().all(|b| *b == 0));
}
