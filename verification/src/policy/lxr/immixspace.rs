//! The immix space of LXR.
use crate::plan::pause::Pause;
use crate::plan::tracing::ObjectQueue;
use crate::policy::immix::block::{block_of, Block, BlockState};
use crate::policy::immix::immixspace::{
    incremented, initial_state, lines_of, BlockPageResource, CommonSpace, Defrag, ImmixSpace,
    ImmixSpaceArgs,
    PlanCreateSpaceArgs, BLOCK_ONLY, MARKED_STATE,
};
use crate::policy::immix::line::Line;
use crate::policy::lxr::block::LXRBlockExt;
use crate::scheduler::worker::GCWorker;
use crate::scheduler::{GCWorkScheduler, WorkPacket, DESIGNATED_WORK_CAPACITY};
use crate::util::address::{Address, ObjectReference};
use crate::util::constants::LOG_BYTES_IN_PAGE;
use crate::util::heap::chunk_map::ChunkMap;
use crate::util::metadata::side_metadata::{filled, SideMetadataSpec};
use crate::util::object_forwarding::{
    state_is_forwarded_or_being_forwarded, ForwardingTable, FORWARDED,
    FORWARDING_NOT_TRIGGERED_YET,
};
use crate::util::rc::{line_dead, straddle_counts, RefCountHelper};
use crate::vm::object_model::{CopySemantics, ObjectModel};
use vstd::prelude::*;

verus! {

/// Whether mature objects are moved out of sparse blocks.
pub const LXR_MATURE_EVACUATION: bool = true;

/// What a plan does when the space hands out memory.
pub trait ImmixHooks: Sized {
    /// What `on_clean_block_acquired` makes of the hooks `before`.
    spec fn clean_block_noted(before: Self, block: Block, copy: bool, after: Self) -> bool;

    /// What `on_reusable_block_acquired` makes of the hooks `before`.
    spec fn reusable_block_noted(before: Self, block: Block, copy: bool, after: Self) -> bool;

    /// Whether a trace is in progress.
    spec fn cm_in_progress(&self) -> bool;

    /// Called after a clean block was taken; `copy` says whether for copies or for a mutator. What
    /// the plan records of the block is its own affair.
    fn on_clean_block_acquired(&mut self, block: Block, copy: bool)
        ensures
            Self::clean_block_noted(*old(self), block, copy, *final(self)),
    ;

    /// Called after a block was taken for the holes in it.
    fn on_reusable_block_acquired(&mut self, block: Block, copy: bool)
        ensures
            Self::reusable_block_noted(*old(self), block, copy, *final(self)),
    ;

    /// Whether a trace is in progress, so that lines handed out now are to be marked.
    fn cm_in_progress_or_final_mark(&self) -> (b: bool)
        ensures
            b == self.cm_in_progress(),
    ;
}

/// Hooks of a plan that records nothing and never traces.
pub struct NoHooks;

impl ImmixHooks for NoHooks {
    open spec fn clean_block_noted(before: Self, block: Block, copy: bool, after: Self) -> bool {
        after == before
    }

    open spec fn reusable_block_noted(before: Self, block: Block, copy: bool, after: Self) -> bool {
        after == before
    }

    open spec fn cm_in_progress(&self) -> bool {
        false
    }

    fn on_clean_block_acquired(&mut self, _block: Block, _copy: bool) {
    }

    fn on_reusable_block_acquired(&mut self, _block: Block, _copy: bool) {
    }

    fn cm_in_progress_or_final_mark(&self) -> (b: bool) {
        false
    }
}

/// The immix space of LXR: a plain immix space with reference counts on top.
pub struct LXRSpace<H> {
    pub immix: ImmixSpace,
    pub hooks: Option<H>,
    /// A trace is complete, so that what it has not marked is dead.
    pub is_end_of_satb_or_full_gc: bool,
    pub rc: RefCountHelper,
}

impl<H> LXRSpace<H> {
    pub open spec fn wf(&self) -> bool {
        &&& self.immix.wf()
        &&& self.rc.wf()
        &&& self.rc.start == self.immix.common.start
        &&& self.rc.counts@.len() == self.immix.blocks() * 2048
    }

    /// Whether no object on line `i` of `block` has a count.
    pub open spec fn dead(&self, block: Block, i: int) -> bool {
        line_dead(self.rc.counts@, self.immix.line_index(block@) + i)
    }

    /// Whether a hole to allocate into begins at line `i` of `block`, where the search began at
    /// line `from`: the line is dead, and it is the first of the block or the line before it was
    /// searched and is dead too.
    pub open spec fn hole_at(&self, block: Block, from: int, i: int) -> bool {
        &&& self.dead(block, i)
        &&& i == 0 || (from <= i - 1 && self.dead(block, i - 1))
    }

    /// Whether `block` has a hole to allocate into.
    pub open spec fn holes_in(&self, block: Block) -> bool {
        exists|i: int| 0 <= i < 128 && #[trigger] self.hole_at(block, 0, i)
    }

    /// Whether a mutator may fill the holes of `block`.
    pub open spec fn may_reuse(&self, block: Block) -> bool {
        self.immix.state(block).reusable() && !self.immix.defrag_source(block)
    }

    /// Whether no object in `block` has a count.
    pub open spec fn counts_clear(&self, block: Block) -> bool {
        let first = self.immix.granule(block@);
        forall|g: int|
            #![trigger self.rc.counts@[g]]
            first <= g < first + 2048 ==> self.rc.counts@[g] == 0
    }

    /// Whether `object` was moved, and where to.
    pub open spec fn forwarded(&self, object: ObjectReference) -> Option<ObjectReference> {
        if self.immix.forwarding.forwarded(object) {
            Some(self.immix.forwarding.pointer_of(object))
        } else {
            None
        }
    }

    /// Whether a complete trace has reached `object` and it has a count.
    pub open spec fn marked_and_counted(&self, object: ObjectReference) -> bool {
        self.immix.marked(object) && self.rc.count_of(object) > 0
    }

    /// Whether `object` is alive. While counts alone decide, it is alive if it has a count or has
    /// been moved. Once a trace is complete, it must have been marked or moved: an object that was
    /// moved is alive if its copy is marked and has a count; one that is marked must not have been
    /// left behind in a block to be evacuated, and must have a count.
    pub open spec fn live(&self, object: ObjectReference) -> bool {
        let block = block_of(object@);
        if !self.is_end_of_satb_or_full_gc {
            self.rc.count_of(object) > 0 || self.forwarded(object) is Some
        } else if self.immix.marked(object) && !self.immix.defrag_source(block) {
            self.rc.count_of(object) > 0
        } else {
            self.forwarded(object) matches Some(to) && self.marked_and_counted(to)
        }
    }

    /// Whether a complete trace has reached `object`, or its copy if it was moved.
    pub open spec fn reachable(&self, object: ObjectReference) -> bool {
        match self.forwarded(object) {
            Some(to) => self.marked_and_counted(to),
            None => self.marked_and_counted(object),
        }
    }

    /// The object that `object` refers to, if it was moved, is in the space.
    pub open spec fn forwarding_closed(&self, object: ObjectReference) -> bool {
        self.forwarded(object) matches Some(to) ==> self.immix.covers(to@)
    }

    /// Whether `object` lies at the start of a line that an earlier object covers.
    pub open spec fn straddled(&self, object: ObjectReference) -> bool {
        object@ % 256 < 16 && self.rc.straddle@[self.rc.line(object@)] != 0
    }
}

/// Whether `after` is `before` with the mark of `object` set.
pub open spec fn mark_set<H>(
    before: LXRSpace<H>,
    object: ObjectReference,
    after: LXRSpace<H>,
) -> bool {
    &&& after == (LXRSpace {
        immix: ImmixSpace { mark: after.immix.mark, ..before.immix },
        ..before
    })
    &&& after.immix.mark@ == before.immix.mark@.update(
        before.immix.granule(object@),
        before.immix.mark_state,
    )
}

/// Whether `after` is `before` with the mark of `object` taken away.
pub open spec fn mark_cleared<H>(
    before: LXRSpace<H>,
    object: ObjectReference,
    after: LXRSpace<H>,
) -> bool {
    &&& after == (LXRSpace {
        immix: ImmixSpace { mark: after.immix.mark, ..before.immix },
        ..before
    })
    &&& after.immix.mark@ == before.immix.mark@.update(before.immix.granule(object@), 0)
}

/// The counts of the objects once room for an object of `size` bytes at `new` has been accounted
/// for.
pub open spec fn counts_with_straddle(
    rc: RefCountHelper,
    new: ObjectReference,
    size: nat,
) -> Seq<u8> {
    if size > 256 {
        straddle_counts(rc.counts@, rc.line(new@), rc.line(new@ + size))
    } else {
        rc.counts@
    }
}

/// Whether `after` is `before` with `object`, of `size` bytes, moved to `new`: the new place is
/// recorded, the count has gone over to the copy, and the copy is marked in place of the object.
pub open spec fn moved<H>(
    before: LXRSpace<H>,
    object: ObjectReference,
    new: ObjectReference,
    size: nat,
    after: LXRSpace<H>,
) -> bool {
    let from = before.immix.granule(object@);
    let to = before.immix.granule(new@);
    let counts = counts_with_straddle(before.rc, new, size);
    &&& after == (LXRSpace {
        immix: ImmixSpace {
            mark: after.immix.mark,
            forwarding: ForwardingTable {
                status: after.immix.forwarding.status,
                pointers: after.immix.forwarding.pointers,
                ..before.immix.forwarding
            },
            ..before.immix
        },
        rc: RefCountHelper {
            counts: after.rc.counts,
            straddle: after.rc.straddle,
            ..before.rc
        },
        ..before
    })
    &&& after.immix.forwarding.status@ == before.immix.forwarding.status@.update(from, FORWARDED)
    &&& after.immix.forwarding.pointers@ == before.immix.forwarding.pointers@.update(from, new.0)
    &&& after.immix.mark@ == before.immix.mark@.update(to, before.immix.mark_state).update(from, 0)
    &&& after.rc.counts@ == counts.update(to, counts[from])
    &&& after.rc.straddle@ == (if size > 256 {
        filled(
            before.rc.straddle@,
            before.rc.line(new@) + 1,
            before.rc.line(new@ + size),
            1,
        )
    } else {
        before.rc.straddle@
    })
}

/// A line lies as many lines into its block as its index says.
#[verifier::spinoff_prover]
proof fn lemma_line_in_block(line: int, block: int, index: int)
    requires
        line % 256 == 0,
        block == line - line % 32768,
        index == (line % 32768) / 256,
    ensures
        line == block + index * 256,
{
    let rest = line % 32768;
    vstd::arithmetic::div_mod::lemma_mod_mod(line, 256, 128);
    vstd::arithmetic::div_mod::lemma_fundamental_div_mod(rest, 256);
}

impl<H: ImmixHooks> LXRSpace<H> {
    /// Search holes by reference counts: the first run of lines from `search_start` on, within its
    /// block, that may be allocated into. The lines are made ready: their fields are logged or not
    /// by whether the run is for copies, lines that mutators get are counted, and while a trace is
    /// in progress everything on them is marked and their reuse is recorded.
    #[verifier::spinoff_prover]
    pub fn rc_get_next_available_lines(&mut self, copy: bool, search_start: Line) -> (lines: Option<
        (Line, Line),
    >)
        requires
            old(self).wf(),
            search_start.wf(),
            old(self).immix.covers(search_start@),
        ensures
            final(self).wf(),
            next_lines(*old(self), copy, search_start, *final(self), lines),
    {
        let block = search_start.block();
        let from: usize = search_start.get_index_within_block();
        proof {
            self.immix.lemma_block_of(search_start@);
            lemma_line_in_block(search_start@, block@, from as int);
        }
        let (start_index, cursor): (usize, usize) = match self.find_hole(block, from) {
            Some(run) => run,
            None => return None,
        };
        let start = Line::from_aligned_address(block.start()).next_nth(start_index);
        let end = Line::from_aligned_address(block.start()).next_nth(cursor);
        assert((start@ - block@) / 256 == start_index && (end@ - block@) / 256 == cursor);
        self.prepare_run(copy, start, end);
        Some((start, end))
    }

    /// The first run of lines from `search_start` on, within its block, that may be allocated into.
    pub fn get_next_available_lines(&mut self, copy: bool, search_start: Line) -> (lines: Option<
        (Line, Line),
    >)
        requires
            old(self).wf(),
            search_start.wf(),
            old(self).immix.covers(search_start@),
        ensures
            final(self).wf(),
            next_lines(*old(self), copy, search_start, *final(self), lines),
    {
        self.rc_get_next_available_lines(copy, search_start)
    }

    /// Hands out a block that nobody uses, if there is one, for copies if `copy` is set and for a
    /// mutator otherwise.
    #[verifier::spinoff_prover]
    pub fn get_clean_block(&mut self, copy: bool) -> (block: Option<Block>)
        requires
            old(self).wf(),
        ensures
            final(self).wf(),
            block is Some <==> old(self).immix.pr.free@.len() > 0,
            block is None ==> *final(self) == *old(self),
            block matches Some(b) ==> clean_block_taken(*old(self), copy, b, *final(self)),
    {
        let block = match self.immix.acquire_clean_block_raw() {
            Some(block) => block,
            None => return None,
        };
        if self.immix.in_defrag() {
            self.immix.defrag.notify_new_clean_block(copy);
        }
        match &mut self.hooks {
            Some(hooks) => hooks.on_clean_block_acquired(block, copy),
            None => {},
        }
        block.init(&mut self.immix, copy, false);
        let chunk: usize = block.chunk(&self.immix);
        self.immix.chunk_map.set_allocated(chunk, true);
        Some(block)
    }

    /// Hands out a block for the holes in it: the last one offered that is still to be reused and
    /// is not to be evacuated. The offers passed over are dropped.
    #[verifier::spinoff_prover]
    pub fn get_reusable_block(&mut self, copy: bool) -> (block: Option<Block>)
        requires
            old(self).wf(),
        ensures
            final(self).wf(),
            match block {
                None => {
                    &&& forall|i: int|
                        0 <= i < old(self).immix.reusable_blocks@.len() ==> !old(self).may_reuse(
                            #[trigger] old(self).immix.reusable_blocks@[i],
                        )
                    &&& *final(self) == (LXRSpace {
                        immix: ImmixSpace {
                            reusable_blocks: final(self).immix.reusable_blocks,
                            ..old(self).immix
                        },
                        ..*old(self)
                    })
                    &&& final(self).immix.reusable_blocks@ == Seq::<Block>::empty()
                },
                Some(b) => reusable_block_taken(*old(self), copy, b, *final(self)),
            },
    {
        if BLOCK_ONLY {
            return None;
        }
        loop
            invariant
                self.wf(),
                *self == (LXRSpace {
                    immix: ImmixSpace {
                        reusable_blocks: self.immix.reusable_blocks,
                        ..old(self).immix
                    },
                    ..*old(self)
                }),
                self.immix.reusable_blocks@.len() <= old(self).immix.reusable_blocks@.len(),
                self.immix.reusable_blocks@ == old(self).immix.reusable_blocks@.take(
                    self.immix.reusable_blocks@.len() as int,
                ),
                forall|i: int|
                    self.immix.reusable_blocks@.len() <= i < old(self).immix.reusable_blocks@.len()
                        ==> !old(self).may_reuse(#[trigger] old(self).immix.reusable_blocks@[i]),
            decreases self.immix.reusable_blocks@.len(),
        {
            let ghost k = self.immix.reusable_blocks@.len() - 1;
            let block = match self.immix.reusable_blocks.pop() {
                Some(block) => block,
                None => return None,
            };
            assert(old(self).immix.reusable_blocks@[k] == block);
            assert(old(self).immix.reusable_blocks@.take(k)
                == self.immix.reusable_blocks@);
            assert(old(self).immix.has_block(block));
            if copy && block.is_defrag_source(&self.immix) {
                continue ;
            }
            if LXR_MATURE_EVACUATION && block.is_defrag_source(&self.immix) {
                continue ;
            }
            if !block.get_state(&self.immix).is_reusable() {
                continue ;
            }
            if !block.attempt_mutator_reuse(self) {
                continue ;
            }
            match &mut self.hooks {
                Some(hooks) => hooks.on_reusable_block_acquired(block, copy),
                None => {},
            }
            proof {
                self.immix.lemma_allocated_in_use(block);
            }
            block.init(&mut self.immix, copy, true);
            proof {
                let i = old(self).immix.block_index(block);
                assert(self.immix.defrag_sources@ == old(self).immix.defrag_sources@);
                assert(self.immix.block_states@ == old(self).immix.block_states@.update(
                    i,
                    initial_state(copy, true),
                ));
                assert(offer_taken(*old(self), block, k, *self));
            }
            return Some(block);
        }
    }

    /// The first hole of `block` from line `from` on, as indices of its first line and of the line
    /// after it.
    #[verifier::spinoff_prover]
    fn find_hole(&self, block: Block, from: usize) -> (run: Option<(usize, usize)>)
        requires
            self.wf(),
            self.immix.has_block(block),
            from < 128,
        ensures
            match run {
                None => forall|i: int|
                    from <= i < 128 ==> !#[trigger] self.hole_at(block, from as int, i),
                Some((start, end)) => run_of_hole(
                    *self,
                    block,
                    from as int,
                    start as int,
                    end as int,
                ),
            },
    {
        let first_line: usize = block.index_in(&self.immix) * 128;
        assert(first_line == self.immix.line_index(block@));
        let limit: usize = Block::LINES;
        let mut first_free_cursor: Option<usize> = None;
        let mut find_free_line = false;
        let mut i: usize = from;
        while i < limit && first_free_cursor.is_none()
            invariant
                self.rc.wf(),
                first_line + 128 <= self.rc.straddle@.len(),
                first_line == self.immix.line_index(block@),
                limit == 128,
                from <= i <= limit,
                first_free_cursor is None ==> {
                    &&& find_free_line == (from <= i - 1 && self.dead(block, i - 1))
                    &&& forall|j: int|
                        from <= j < i ==> !#[trigger] self.hole_at(
                            block,
                            from as int,
                            j,
                        )
                },
                first_free_cursor matches Some(c) ==> {
                    &&& from <= c < limit
                    &&& self.hole_at(block, from as int, c as int)
                    &&& forall|j: int|
                        from <= j < c ==> !#[trigger] self.hole_at(
                            block,
                            from as int,
                            j,
                        )
                },
            decreases limit - i,
        {
            if self.rc.is_line_dead(first_line + i) {
                if i == 0 {
                    first_free_cursor = Some(i);
                } else if !find_free_line {
                    // The first line of a hole is skipped: an object that ends on it may have left
                    // its counts there zero.
                    find_free_line = true;
                } else {
                    first_free_cursor = Some(i);
                }
            } else {
                find_free_line = false;
            }
            i += 1;
        }
        let start_index: usize = match first_free_cursor {
            Some(c) => c,
            None => return None,
        };
        let mut cursor: usize = start_index + 1;
        while cursor < limit && self.rc.is_line_dead(first_line + cursor)
            invariant
                self.rc.wf(),
                first_line + 128 <= self.rc.straddle@.len(),
                first_line == self.immix.line_index(block@),
                limit == 128,
                start_index < cursor <= limit,
                self.dead(block, start_index as int),
                forall|j: int| start_index <= j < cursor ==> #[trigger] self.dead(block, j),
            decreases limit - cursor,
        {
            cursor += 1;
        }
        Some((start_index, cursor))
    }

    /// Makes the lines from `start` up to `end` ready for allocation.
    #[verifier::spinoff_prover]
    fn prepare_run(&mut self, copy: bool, start: Line, end: Line)
        requires
            old(self).wf(),
            lines_of(old(self).immix, start, end),
        ensures
            final(self).wf(),
            run_prepared(*old(self), copy, start, end, *final(self)),
    {
        if self.immix.common.needs_log_bit {
            if !copy {
                Line::clear_field_unlog_table(&mut self.immix, start, end);
            } else {
                Line::initialize_field_unlog_table_as_unlogged(&mut self.immix, start, end);
            }
        }
        let num_lines: usize = Line::steps_between(&start, &end).unwrap();
        if !copy {
            self.immix.add_reused_lines_consumed(num_lines);
        }
        let cm_in_progress = match &self.hooks {
            Some(h) => h.cm_in_progress_or_final_mark(),
            None => false,
        };
        if cm_in_progress {
            Line::initialize_mark_table_as_marked(&mut self.immix, start, end);
            Line::inc_reuse_counts(&mut self.immix, start, end);
        }
    }
}

impl<H> LXRSpace<H> {
    /// A space with no hooks installed, nothing handed out and every count zero.
    pub fn new(args: PlanCreateSpaceArgs, space_args: ImmixSpaceArgs) -> (s: Self)
        requires
            args.start@ % 0x40_0000 == 0,
            args.start@ + args.blocks * 32768 <= usize::MAX,
        ensures
            s.wf(),
            s.immix.common.name == args.name,
            s.immix.common.start == args.start@,
            s.immix.common.needs_log_bit == args.needs_log_bit,
            s.immix.common.extra_metadata@ == seq![
                SideMetadataSpec::RcStraddleLines,
                SideMetadataSpec::BlockLog,
                SideMetadataSpec::NurseryPromotionState,
                SideMetadataSpec::LineReuseCount,
            ],
            s.immix.space_args == space_args,
            s.immix.blocks() == args.blocks,
            s.immix.pr.reserved_blocks == 0,
            s.immix.pr.free@ == Seq::new(
                args.blocks as nat,
                |i: int| Block(Address((args.start@ + i * 32768) as usize)),
            ),
            s.immix.block_states@ == Seq::new(args.blocks as nat, |i: int| BlockState::Unallocated),
            s.immix.reusable_blocks@ == Seq::<Block>::empty(),
            s.immix.reused_lines_consumed == 0,
            s.immix.mark@ == Seq::new((args.blocks * 2048) as nat, |i: int| 0u8),
            s.immix.mark_state == MARKED_STATE,
            s.immix.forwarding.status@ == Seq::new((args.blocks * 2048) as nat, |i: int| 0u8),
            s.immix.defrag_sources@ == Seq::new(args.blocks as nat, |i: int| false),
            s.immix.in_place_promoted@ == Seq::new(args.blocks as nat, |i: int| false),
            s.immix.chunk_map@ == Seq::new((args.blocks as int / 128 + 1) as nat, |i: int| false),
            s.immix.field_unlog@ == Seq::new((args.blocks * 4096) as nat, |i: int| 0u8),
            s.immix.line_reuse_counts@ == Seq::new((args.blocks * 128) as nat, |i: int| 0u8),
            s.immix.block_log@ == Seq::new(args.blocks as nat, |i: int| 0u8),
            s.immix.defrag == (Defrag {
                in_defrag: false,
                available_clean_pages: 0,
                exhausted: false,
            }),
            s.immix.scheduler.workers() == args.workers,
            forall|i: int|
                0 <= i < args.workers ==> (#[trigger] s.immix.scheduler.designated(i)).len() == 0,
            s.hooks is None,
            !s.is_end_of_satb_or_full_gc,
            s.rc.counts@ == Seq::new((args.blocks * 2048) as nat, |i: int| 0u8),
            s.rc.straddle@ == Seq::new((args.blocks * 128) as nat, |i: int| 0u8),
            s.rc.inc_buffer_size == 0,
    {
        let rc = RefCountHelper::new(args.start.0, args.blocks * Block::LINES);
        let immix = ImmixSpace::new_with_extra_side_metadata_specs(
            args,
            space_args,
            vec![
                SideMetadataSpec::RcStraddleLines,
                SideMetadataSpec::BlockLog,
                SideMetadataSpec::NurseryPromotionState,
                SideMetadataSpec::LineReuseCount,
            ],
        );
        LXRSpace { immix, hooks: None, is_end_of_satb_or_full_gc: false, rc }
    }

    /// Installs the hooks of the plan. Not to be called twice.
    pub fn install_hooks(&mut self, hooks: H)
        requires
            old(self).hooks is None,
        ensures
            *final(self) == (LXRSpace { hooks: Some(hooks), ..*old(self) }),
    {
        self.hooks = Some(hooks);
    }

    /// The plain immix space that this one is built on.
    pub fn inner(&self) -> (immix: &ImmixSpace)
        ensures
            *immix == self.immix,
    {
        &self.immix
    }

    pub fn name(&self) -> (name: &'static str)
        ensures
            name == self.immix.common.name,
    {
        self.immix.common.name
    }

    pub fn common(&self) -> (common: &CommonSpace)
        ensures
            *common == self.immix.common,
    {
        &self.immix.common
    }

    pub fn get_page_resource(&self) -> (pr: &BlockPageResource)
        ensures
            *pr == self.immix.pr,
    {
        &self.immix.pr
    }

    pub fn scheduler(&self) -> (scheduler: &GCWorkScheduler)
        ensures
            *scheduler == self.immix.scheduler,
    {
        &self.immix.scheduler
    }

    /// The pages to keep free for the copies of a collection.
    pub fn defrag_headroom_pages(&self) -> (pages: usize)
        requires
            self.wf(),
        ensures
            pages == self.immix.pr.reserved_blocks * 8 * 2 / 100,
    {
        self.immix.defrag_headroom_pages()
    }

    pub fn chunk_map(&self) -> (map: &ChunkMap)
        ensures
            *map == self.immix.chunk_map,
    {
        &self.immix.chunk_map
    }

    pub fn is_movable(&self) -> (b: bool)
        ensures
            b == !self.immix.space_args.never_move_objects,
    {
        self.immix.is_movable()
    }

    pub fn in_defrag(&self) -> (b: bool)
        ensures
            b == self.immix.defrag.in_defrag,
    {
        self.immix.in_defrag()
    }

    /// Makes every field of the space one whose stores are not to be logged.
    pub fn clear_side_log_bits(&mut self)
        requires
            old(self).wf(),
        ensures
            final(self).wf(),
            *final(self) == (LXRSpace {
                immix: ImmixSpace {
                    field_unlog: final(self).immix.field_unlog,
                    ..old(self).immix
                },
                ..*old(self)
            }),
            final(self).immix.field_unlog@ == Seq::new(
                old(self).immix.field_unlog@.len(),
                |i: int| 0u8,
            ),
    {
        self.immix.fill_side_log_bits(0);
    }

    /// Makes every field of the space one whose next store is to be logged.
    pub fn set_side_log_bits(&mut self)
        requires
            old(self).wf(),
        ensures
            final(self).wf(),
            *final(self) == (LXRSpace {
                immix: ImmixSpace {
                    field_unlog: final(self).immix.field_unlog,
                    ..old(self).immix
                },
                ..*old(self)
            }),
            final(self).immix.field_unlog@ == Seq::new(
                old(self).immix.field_unlog@.len(),
                |i: int| 1u8,
            ),
    {
        self.immix.fill_side_log_bits(1);
    }

    /// Marks `object`. Says whether it was not marked before.
    pub fn attempt_mark(&mut self, object: ObjectReference) -> (fresh: bool)
        requires
            old(self).wf(),
            old(self).immix.covers(object@),
        ensures
            final(self).wf(),
            fresh == !old(self).immix.marked(object),
            mark_set(*old(self), object, *final(self)),
    {
        self.immix.attempt_mark(object)
    }

    /// Takes the mark of `object` away. Says whether it had one.
    pub fn unmark(&mut self, object: ObjectReference) -> (had_mark: bool)
        requires
            old(self).wf(),
            old(self).immix.covers(object@),
        ensures
            final(self).wf(),
            had_mark == (old(self).immix.mark@[old(self).immix.granule(object@)] != 0),
            mark_cleared(*old(self), object, *final(self)),
    {
        self.immix.unmark(object)
    }

    pub fn is_marked(&self, object: ObjectReference) -> (b: bool)
        requires
            self.wf(),
            self.immix.covers(object@),
        ensures
            b == self.immix.marked(object),
    {
        self.immix.is_marked(object)
    }

    /// Where `object` was moved to, if it was.
    pub fn get_forwarded_object(&self, object: ObjectReference) -> (to: Option<ObjectReference>)
        requires
            self.wf(),
            self.immix.covers(object@),
        ensures
            to == self.forwarded(object),
    {
        if self.immix.forwarding.is_forwarded(object) {
            Some(self.immix.forwarding.read_forwarding_pointer(object))
        } else {
            None
        }
    }

    /// Whether `object` is alive.
    #[verifier::spinoff_prover]
    #[verifier::rlimit(40)]
    pub fn is_live(&self, object: ObjectReference) -> (b: bool)
        requires
            self.wf(),
            self.immix.covers(object@),
            self.forwarding_closed(object),
        ensures
            b == self.live(object),
    {
        if self.is_end_of_satb_or_full_gc {
            if self.is_marked(object) {
                let block = Block::containing(object);
                if block.is_defrag_source(&self.immix) {
                    if self.immix.forwarding.is_forwarded(object) {
                        let forwarded = self.immix.forwarding.read_forwarding_pointer(object);
                        return self.is_marked(forwarded) && self.rc.count(forwarded) > 0;
                    } else {
                        return false;
                    }
                }
                return self.rc.count(object) > 0;
            } else if self.immix.forwarding.is_forwarded(object) {
                let forwarded = self.immix.forwarding.read_forwarding_pointer(object);
                return self.is_marked(forwarded) && self.rc.count(forwarded) > 0;
            } else {
                return false;
            }
        }
        self.rc.count(object) > 0 || self.immix.forwarding.is_forwarded(object)
    }

    /// Whether a complete trace has reached `object`, or its copy if it was moved.
    pub fn is_reachable(&self, object: ObjectReference) -> (b: bool)
        requires
            self.wf(),
            self.immix.covers(object@),
            self.forwarding_closed(object),
        ensures
            b == self.reachable(object),
    {
        if self.immix.forwarding.is_forwarded(object) {
            let forwarded = self.immix.forwarding.read_forwarding_pointer(object);
            return self.is_marked(forwarded) && self.rc.count(forwarded) > 0;
        }
        self.is_marked(object) && self.rc.count(object) > 0
    }

    /// Makes the blocks given back since the last flush available again.
    pub fn flush_page_resource(&mut self)
        requires
            old(self).wf(),
        ensures
            final(self).wf(),
            *final(self) == (LXRSpace {
                immix: ImmixSpace { pr: final(self).immix.pr, ..old(self).immix },
                ..*old(self)
            }),
            flushed(old(self).immix.pr, final(self).immix.pr),
    {
        self.immix.flush_pr_only();
    }

    /// Prepares the space for a pause. A trace that starts here marks by the reset mark state. A
    /// full collection has the workers drop their allocation buffers. Blocks given back become
    /// available, except in a pause that only counts. Where a trace ends, marks now decide what is
    /// alive.
    pub fn prepare_rc(&mut self, pause: Pause)
        requires
            old(self).wf(),
            pause == Pause::Full ==> forall|i: int|
                0 <= i < old(self).immix.scheduler.workers() ==> (
                #[trigger] old(self).immix.scheduler.designated(i)).len()
                    < DESIGNATED_WORK_CAPACITY,
        ensures
            final(self).wf(),
            *final(self) == (LXRSpace {
                immix: ImmixSpace {
                    mark_state: final(self).immix.mark_state,
                    scheduler: final(self).immix.scheduler,
                    pr: final(self).immix.pr,
                    ..old(self).immix
                },
                is_end_of_satb_or_full_gc: final(self).is_end_of_satb_or_full_gc,
                ..*old(self)
            }),
            final(self).immix.mark_state == (if pause == Pause::Full || pause
                == Pause::InitialMark {
                MARKED_STATE
            } else {
                old(self).immix.mark_state
            }),
            pause == Pause::RefCount ==> final(self).immix.pr == old(self).immix.pr,
            pause != Pause::RefCount ==> flushed(old(self).immix.pr, final(self).immix.pr),
            pause != Pause::Full ==> final(self).immix.scheduler == old(self).immix.scheduler,
            pause == Pause::Full ==> prepare_collector_queued(
                old(self).immix.scheduler,
                final(self).immix.scheduler,
            ),
            final(self).is_end_of_satb_or_full_gc == (pause == Pause::FinalMark || pause
                == Pause::Full || old(self).is_end_of_satb_or_full_gc),
    {
        if pause == Pause::Full || pause == Pause::InitialMark {
            self.immix.reset_mark_state_to_marked();
        }
        if pause != Pause::RefCount {
            if pause == Pause::Full {
                self.immix.scheduler.push_prepare_collector();
            }
            self.flush_page_resource();
        }
        if pause == Pause::FinalMark || pause == Pause::Full {
            self.is_end_of_satb_or_full_gc = true;
        }
    }

    /// Ends a pause: blocks given back become available, no increment is buffered any more, counts
    /// alone decide again what is alive, and no line has been given to a mutator again yet.
    pub fn release_rc(&mut self)
        requires
            old(self).wf(),
        ensures
            final(self).wf(),
            *final(self) == (LXRSpace {
                immix: ImmixSpace {
                    pr: final(self).immix.pr,
                    reused_lines_consumed: 0,
                    ..old(self).immix
                },
                rc: RefCountHelper { inc_buffer_size: 0, ..old(self).rc },
                is_end_of_satb_or_full_gc: false,
                ..*old(self)
            }),
            flushed(old(self).immix.pr, final(self).immix.pr),
    {
        self.flush_page_resource();
        self.rc.reset_inc_buffer_size();
        self.is_end_of_satb_or_full_gc = false;
        self.immix.reset_reused_lines_consumed();
    }

    /// Marks `object` and, where it was not marked before, queues it, unless it is the start of a
    /// line that an earlier object covers and so no object.
    pub fn trace_object_without_moving_rc<Q: ObjectQueue>(
        &mut self,
        queue: &mut Q,
        object: ObjectReference,
    ) -> (o: ObjectReference)
        requires
            old(self).wf(),
            old(self).immix.covers(object@),
        ensures
            final(self).wf(),
            traced_without_moving(
                *old(self),
                old(queue).queued(),
                object,
                *final(self),
                final(queue).queued(),
                o,
            ),
    {
        if self.attempt_mark(object) {
            let straddle = if object.0 % 256 < 16 {
                self.rc.is_straddle_line(Line::containing(object))
            } else {
                false
            };
            if !straddle {
                queue.enqueue(object);
            }
        }
        object
    }

    /// Traces `object` as part of a whole-heap trace that does not move it.
    pub fn trace_object<Q: ObjectQueue>(&mut self, queue: &mut Q, object: ObjectReference) -> (o:
        ObjectReference)
        requires
            old(self).wf(),
            old(self).immix.covers(object@),
        ensures
            final(self).wf(),
            traced_without_moving(
                *old(self),
                old(queue).queued(),
                object,
                *final(self),
                final(queue).queued(),
                o,
            ),
    {
        self.trace_object_without_moving_rc(queue, object)
    }

    /// Whether `trace_object` may move objects: it never does.
    pub fn may_move_objects() -> (b: bool)
        ensures
            !b,
    {
        false
    }

    /// Marks `object`, which was not moved, if `mark` is set, and queues it where it was not
    /// marked before.
    pub fn trace_mark_rc_mature_object<Q: ObjectQueue>(
        &mut self,
        queue: &mut Q,
        object: ObjectReference,
        _pause: Pause,
        mark: bool,
    ) -> (o: ObjectReference)
        requires
            old(self).wf(),
            old(self).immix.covers(object@),
            old(self).forwarded(object) is None,
        ensures
            final(self).wf(),
            traced_in_place(
                *old(self),
                old(queue).queued(),
                object,
                mark,
                *final(self),
                final(queue).queued(),
                o,
            ),
    {
        if mark && self.attempt_mark(object) {
            queue.enqueue(object);
        }
        object
    }

    /// Moves `object` where it was not moved yet, and queues the copy. Returns where it is now.
    /// There must be room for the copy in the space, nobody else may be moving the object, and an
    /// object to be moved must have a count.
    #[verifier::spinoff_prover]
    pub fn trace_forward_rc_mature_object<Q: ObjectQueue, VM: ObjectModel>(
        &mut self,
        queue: &mut Q,
        object: ObjectReference,
        _semantics: CopySemantics,
        _pause: Pause,
        worker: &mut GCWorker<VM>,
    ) -> (o: ObjectReference)
        requires
            old(self).wf(),
            old(self).immix.covers(object@),
            old(self).can_forward(object, old(worker).object_model),
        ensures
            final(self).wf(),
            traced_by_moving(
                *old(self),
                old(queue).queued(),
                *old(worker),
                object,
                *final(self),
                final(queue).queued(),
                *final(worker),
                o,
            ),
    {
        let forwarding_status: u8 = self.immix.forwarding.attempt_to_forward(object);
        if state_is_forwarded_or_being_forwarded(forwarding_status) {
            self.immix.forwarding.spin_and_get_forwarded_object(object, forwarding_status)
        } else {
            let new = self.immix.forwarding.try_forward_object(
                object,
                CopySemantics::DefaultCopy,
                &mut worker.object_model,
            ).unwrap();
            let size: usize = worker.object_model.get_size(new);
            if size > Line::BYTES {
                self.rc.mark_straddle_object_with_size(new, size);
            }
            let count: u8 = self.rc.count(object);
            self.rc.set(new, count);
            let _ = self.attempt_mark(new);
            let _ = self.unmark(object);
            queue.enqueue(new);
            assert(self.immix.forwarding.status@ == old(self).immix.forwarding.status@.update(
                old(self).immix.granule(object@),
                FORWARDED,
            ));
            new
        }
    }

    /// Traces `object`: moves it if its block is to be evacuated, and marks it otherwise.
    pub fn rc_trace_object<Q: ObjectQueue, VM: ObjectModel>(
        &mut self,
        queue: &mut Q,
        object: ObjectReference,
        semantics: CopySemantics,
        pause: Pause,
        mark: bool,
        worker: &mut GCWorker<VM>,
    ) -> (o: ObjectReference)
        requires
            old(self).wf(),
            old(self).immix.covers(object@),
            old(self).immix.defrag_source(block_of(object@)) ==> old(self).can_forward(
                object,
                old(worker).object_model,
            ),
            !old(self).immix.defrag_source(block_of(object@)) ==> old(self).forwarded(
                object,
            ) is None,
        ensures
            final(self).wf(),
            rc_traced(
                LXR_MATURE_EVACUATION,
                *old(self),
                old(queue).queued(),
                *old(worker),
                object,
                mark,
                *final(self),
                final(queue).queued(),
                *final(worker),
                o,
            ),
    {
        if LXR_MATURE_EVACUATION && Block::containing(object).is_defrag_source(&self.immix) {
            self.trace_forward_rc_mature_object(queue, object, semantics, pause, worker)
        } else if LXR_MATURE_EVACUATION {
            self.trace_mark_rc_mature_object(queue, object, pause, mark)
        } else {
            self.trace_object_without_moving_rc(queue, object)
        }
    }

    /// The memory, in pages, of the lines that mutators were given again.
    pub fn get_mutator_recycled_lines_in_pages(&self) -> (pages: usize)
        ensures
            pages == self.immix.reused_lines_consumed / 16,
    {
        let lines: usize = self.immix.reused_lines_consumed_count();
        assert(lines >> 4usize == lines / 16) by (bit_vector);
        lines >> (LOG_BYTES_IN_PAGE as usize - Line::LOG_BYTES)
    }

    /// Whether `object` can be traced by moving it: either it was moved, or the object model has
    /// room for its copy in the space and the object has a count.
    pub open spec fn can_forward<VM: ObjectModel>(&self, object: ObjectReference, vm: VM) -> bool {
        let status = self.immix.forwarding.status_of(object);
        &&& status == FORWARDED || status == FORWARDING_NOT_TRIGGERED_YET
        &&& status == FORWARDING_NOT_TRIGGERED_YET ==> {
            &&& self.rc.count_of(object) > 0
            &&& vm.copy_target(object, CopySemantics::DefaultCopy) is Some
            &&& ({
                let to = vm.copy_target(object, CopySemantics::DefaultCopy).unwrap();
                &&& self.immix.covers(to@)
                &&& to@ + vm.size_of(object) <= self.immix.common.start + self.immix.blocks()
                    * 32768
            })
        }
    }
}

/// Whether `after` is `before` with the blocks given back available again.
pub open spec fn flushed(before: BlockPageResource, after: BlockPageResource) -> bool {
    &&& after.free@ == before.unused()
    &&& after.released@ == Seq::<Block>::empty()
    &&& after.reserved_blocks == before.reserved_blocks
}

/// Whether `after` is `before` with a packet for every worker that has it drop its buffers.
pub open spec fn prepare_collector_queued(before: GCWorkScheduler, after: GCWorkScheduler) -> bool {
    &&& after.workers() == before.workers()
    &&& after.activated == before.activated
    &&& forall|i: int|
        0 <= i < before.workers() ==> #[trigger] after.designated(i) == before.designated(i).push(
            WorkPacket::PrepareCollector,
        )
}

/// Whether `after` is `before` once the worker has copied `object`.
pub open spec fn copied_by<VM: ObjectModel>(
    before: GCWorker<VM>,
    object: ObjectReference,
    after: GCWorker<VM>,
) -> bool {
    &&& after == (GCWorker { object_model: after.object_model, ..before })
    &&& VM::copied(
        before.object_model,
        object,
        CopySemantics::DefaultCopy,
        after.object_model,
    )
}

/// What tracing `object` by moving it makes of the space, and where the object is then.
pub open spec fn forward_traced<H, VM: ObjectModel>(
    before: LXRSpace<H>,
    object: ObjectReference,
    vm: VM,
    after: LXRSpace<H>,
    result: ObjectReference,
) -> bool {
    match before.forwarded(object) {
        Some(to) => result == to && after == before,
        None => {
            &&& Some(result) == vm.copy_target(object, CopySemantics::DefaultCopy)
            &&& moved(before, object, result, vm.size_of(object), after)
        },
    }
}

/// What tracing `object` by moving it makes of the space, of the objects queued and of the worker,
/// and where the object is then: where it was not moved yet, the worker copies it, and the copy is
/// queued.
pub open spec fn traced_by_moving<H, VM: ObjectModel>(
    before: LXRSpace<H>,
    queued: Seq<ObjectReference>,
    worker: GCWorker<VM>,
    object: ObjectReference,
    after: LXRSpace<H>,
    queued_after: Seq<ObjectReference>,
    worker_after: GCWorker<VM>,
    result: ObjectReference,
) -> bool {
    &&& forward_traced(before, object, worker.object_model, after, result)
    &&& if before.forwarded(object) is Some {
        queued_after == queued && worker_after == worker
    } else {
        queued_after == queued.push(result) && copied_by(worker, object, worker_after)
    }
}

/// What tracing `object` where it is makes of the space and of the objects queued: if `mark` is set
/// it is marked, and queued where it was not marked before.
pub open spec fn traced_in_place<H>(
    before: LXRSpace<H>,
    queued: Seq<ObjectReference>,
    object: ObjectReference,
    mark: bool,
    after: LXRSpace<H>,
    queued_after: Seq<ObjectReference>,
    result: ObjectReference,
) -> bool {
    &&& result == object
    &&& if mark {
        mark_set(before, object, after)
    } else {
        after == before
    }
    &&& queued_after == (if mark && !before.immix.marked(object) {
        queued.push(object)
    } else {
        queued
    })
}

/// What tracing `object` in a trace that moves nothing makes of the space and of the objects queued:
/// it is marked, and queued where it was not marked before, unless an earlier object covers it.
pub open spec fn traced_without_moving<H>(
    before: LXRSpace<H>,
    queued: Seq<ObjectReference>,
    object: ObjectReference,
    after: LXRSpace<H>,
    queued_after: Seq<ObjectReference>,
    result: ObjectReference,
) -> bool {
    &&& result == object
    &&& mark_set(before, object, after)
    &&& queued_after == (if before.immix.marked(object) || before.straddled(object) {
        queued
    } else {
        queued.push(object)
    })
}

/// What tracing `object` makes of the space, of the objects queued and of the worker, and where the
/// object is then. Where old objects are evacuated, it is moved if its block is to be, and stays
/// where it is otherwise; else the trace moves nothing.
pub open spec fn rc_traced<H, VM: ObjectModel>(
    evacuation: bool,
    before: LXRSpace<H>,
    queued: Seq<ObjectReference>,
    worker: GCWorker<VM>,
    object: ObjectReference,
    mark: bool,
    after: LXRSpace<H>,
    queued_after: Seq<ObjectReference>,
    worker_after: GCWorker<VM>,
    result: ObjectReference,
) -> bool {
    if evacuation && before.immix.defrag_source(block_of(object@)) {
        traced_by_moving(
            before,
            queued,
            worker,
            object,
            after,
            queued_after,
            worker_after,
            result,
        )
    } else if evacuation {
        &&& traced_in_place(before, queued, object, mark, after, queued_after, result)
        &&& worker_after == worker
    } else {
        &&& traced_without_moving(before, queued, object, after, queued_after, result)
        &&& worker_after == worker
    }
}

/// What the search for a run of lines from `search_start` on gives back, and makes of the space.
pub open spec fn next_lines<H: ImmixHooks>(
    before: LXRSpace<H>,
    copy: bool,
    search_start: Line,
    after: LXRSpace<H>,
    lines: Option<(Line, Line)>,
) -> bool {
    let block = block_of(search_start@);
    let from = search_start.index_in_block();
    match lines {
        None => {
            &&& after == before
            &&& forall|i: int| from <= i < 128 ==> !#[trigger] before.hole_at(block, from, i)
        },
        Some((start, end)) => {
            &&& start.wf() && end.wf()
            &&& search_start@ <= start@ < end@ <= block@ + 32768
            &&& run_of_hole(
                before,
                block,
                from,
                (start@ - block@) / 256,
                (end@ - block@) / 256,
            )
            &&& run_prepared(before, copy, start, end, after)
        },
    }
}

/// What handing out the clean block `block` makes of the space.
pub open spec fn clean_block_taken<H: ImmixHooks>(
    before: LXRSpace<H>,
    copy: bool,
    block: Block,
    after: LXRSpace<H>,
) -> bool {
    let i = before.immix.block_index(block);
    &&& block == before.immix.pr.free@.last()
    &&& before.immix.has_block(block)
    &&& before.immix.state(block) == BlockState::Unallocated
    &&& !before.immix.in_use(block)
    &&& after.immix.in_use(block)
    &&& after == (LXRSpace {
        immix: ImmixSpace {
            pr: after.immix.pr,
            defrag: after.immix.defrag,
            block_states: after.immix.block_states,
            defrag_sources: after.immix.defrag_sources,
            in_place_promoted: after.immix.in_place_promoted,
            chunk_map: after.immix.chunk_map,
            ..before.immix
        },
        hooks: after.hooks,
        ..before
    })
    &&& after.immix.pr.free@ == before.immix.pr.free@.drop_last()
    &&& after.immix.pr.released == before.immix.pr.released
    &&& after.immix.pr.reserved_blocks == before.immix.pr.reserved_blocks + 1
    &&& after.immix.defrag == (if before.immix.defrag.in_defrag {
        before.immix.defrag.after_clean_block(copy)
    } else {
        before.immix.defrag
    })
    &&& after.immix.block_states@ == before.immix.block_states@.update(
        i,
        initial_state(copy, false),
    )
    &&& after.immix.defrag_sources@ == before.immix.defrag_sources@.update(i, false)
    &&& after.immix.in_place_promoted@ == before.immix.in_place_promoted@.update(i, false)
    &&& after.immix.chunk_map@ == before.immix.chunk_map@.update(
        before.immix.chunk_index(block@),
        true,
    )
    &&& match (before.hooks, after.hooks) {
        (Some(h), Some(g)) => H::clean_block_noted(h, block, copy, g),
        (None, None) => true,
        _ => false,
    }
}

/// Whether `after` comes from `before` by taking the offer of `block` at position `k`, which is
/// the last one that may be reused, and by dropping the later ones.
pub open spec fn offer_taken<H>(
    before: LXRSpace<H>,
    block: Block,
    k: int,
    after: LXRSpace<H>,
) -> bool {
    let offers = before.immix.reusable_blocks@;
    &&& 0 <= k < offers.len()
    &&& offers[k] == block
    &&& before.may_reuse(block)
    &&& forall|i: int| k < i < offers.len() ==> !before.may_reuse(#[trigger] offers[i])
    &&& after.immix.reusable_blocks@ == offers.take(k)
}

/// What handing out `block` for the holes in it makes of the space.
pub open spec fn reusable_block_taken<H: ImmixHooks>(
    before: LXRSpace<H>,
    copy: bool,
    block: Block,
    after: LXRSpace<H>,
) -> bool {
    &&& before.immix.has_block(block)
    &&& exists|k: int| offer_taken(before, block, k, after)
    &&& after == (LXRSpace {
        immix: ImmixSpace {
            reusable_blocks: after.immix.reusable_blocks,
            block_states: after.immix.block_states,
            defrag_sources: after.immix.defrag_sources,
            in_place_promoted: after.immix.in_place_promoted,
            ..before.immix
        },
        hooks: after.hooks,
        ..before
    })
    &&& after.immix.block_states@ == before.immix.block_states@.update(
        before.immix.block_index(block),
        initial_state(copy, true),
    )
    &&& after.immix.defrag_sources@ == before.immix.defrag_sources@
    &&& after.immix.in_place_promoted@ == before.immix.in_place_promoted@
    &&& match (before.hooks, after.hooks) {
        (Some(h), Some(g)) => H::reusable_block_noted(h, block, copy, g),
        (None, None) => true,
        _ => false,
    }
}

/// Whether the lines of `block` from index `start` up to index `end` are the first hole from index
/// `from` on, up to its end.
pub open spec fn run_of_hole<H>(
    space: LXRSpace<H>,
    block: Block,
    from: int,
    start: int,
    end: int,
) -> bool {
    &&& from <= start < end <= 128
    &&& space.hole_at(block, from, start)
    &&& forall|i: int| from <= i < start ==> !#[trigger] space.hole_at(block, from, i)
    &&& forall|i: int| start <= i < end ==> #[trigger] space.dead(block, i)
    &&& end == 128 || !space.dead(block, end)
}

/// Whether `after` is `before` with the lines from `start` up to `end` made ready for allocation.
pub open spec fn run_prepared<H: ImmixHooks>(
    before: LXRSpace<H>,
    copy: bool,
    start: Line,
    end: Line,
    after: LXRSpace<H>,
) -> bool {
    let tracing = before.hooks matches Some(h) && h.cm_in_progress();
    &&& after == (LXRSpace {
        immix: ImmixSpace {
            field_unlog: after.immix.field_unlog,
            reused_lines_consumed: after.immix.reused_lines_consumed,
            mark: after.immix.mark,
            line_reuse_counts: after.immix.line_reuse_counts,
            ..before.immix
        },
        ..before
    })
    &&& after.immix.field_unlog@ == (if before.immix.common.needs_log_bit {
        filled(
            before.immix.field_unlog@,
            before.immix.word(start@),
            before.immix.word(end@),
            if copy {
                1
            } else {
                0
            },
        )
    } else {
        before.immix.field_unlog@
    })
    &&& after.immix.reused_lines_consumed == (if copy {
        before.immix.reused_lines_consumed
    } else {
        before.immix.reused_lines_consumed.wrapping_add(((end@ - start@) / 256) as usize)
    })
    &&& after.immix.mark@ == (if tracing {
        filled(
            before.immix.mark@,
            before.immix.granule(start@),
            before.immix.granule(end@),
            MARKED_STATE,
        )
    } else {
        before.immix.mark@
    })
    &&& after.immix.line_reuse_counts@ == (if tracing {
        incremented(
            before.immix.line_reuse_counts@,
            before.immix.line_index(start@),
            before.immix.line_index(end@),
        )
    } else {
        before.immix.line_reuse_counts@
    })
}

} // verus!
