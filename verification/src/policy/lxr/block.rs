//! What LXR does with a block: searching it for holes by reference counts, sweeping it, and the
//! tables it keeps about it.
use crate::policy::immix::block::{Block, BlockState};
use crate::policy::immix::immixspace::{ImmixSpace, BLOCK_ONLY, MARKED_STATE};
use crate::policy::lxr::immixspace::LXRSpace;
use crate::util::metadata::side_metadata::filled;
use crate::util::rc::{line_dead, RefCountHelper};
use vstd::prelude::*;

verus! {

/// How many of the `n` lines from line `first` of a count table on are dead.
pub open spec fn dead_lines(counts: Seq<u8>, first: int, n: nat) -> nat
    decreases n,
{
    if n == 0 {
        0
    } else {
        dead_lines(counts, first, (n - 1) as nat) + if line_dead(counts, first + n - 1) {
            1nat
        } else {
            0
        }
    }
}

/// What the sweep after a collection of the nursery makes of `block`.
pub open spec fn nursery_swept<H>(
    before: LXRSpace<H>,
    block: Block,
    after: LXRSpace<H>,
    released: bool,
) -> bool {
    let i = before.immix.block_index(block);
    &&& released == !before.immix.promoted_in_place(block)
    &&& after == (LXRSpace {
        immix: ImmixSpace {
            in_place_promoted: after.immix.in_place_promoted,
            block_states: after.immix.block_states,
            reusable_blocks: after.immix.reusable_blocks,
            pr: after.immix.pr,
            field_unlog: after.immix.field_unlog,
            ..before.immix
        },
        ..before
    })
    &&& after.immix.in_place_promoted@ == before.immix.in_place_promoted@.update(i, false)
    &&& after.immix.field_unlog@ == before.immix.field_unlog@
    &&& if released {
        &&& after.immix.block_states@ == before.immix.block_states@.update(
            i,
            BlockState::Unallocated,
        )
        &&& after.immix.reusable_blocks == before.immix.reusable_blocks
        &&& given_back(before.immix, block, after.immix)
    } else {
        &&& after.immix.block_states@ == before.immix.block_states@.update(
            i,
            BlockState::Reusable { unavailable_lines: 1 },
        )
        &&& after.immix.reusable_blocks@ == before.immix.reusable_blocks@.push(block)
        &&& after.immix.pr == before.immix.pr
    }
}

/// Whether the difference between the free lists `before` and `after` is that `block` was given
/// back.
pub open spec fn given_back(before: ImmixSpace, block: Block, after: ImmixSpace) -> bool {
    &&& after.pr.free == before.pr.free
    &&& after.pr.released@ == before.pr.released@.push(block)
    &&& after.pr.reserved_blocks == before.pr.reserved_blocks - 1
    &&& !after.in_use(block)
}

/// What the sweep of mature blocks is to do with a block.
#[derive(Copy, Clone, PartialEq, Eq, Structural)]
pub enum MatureSweep {
    /// Leave it as it is.
    Keep,
    /// Give it back.
    Release,
    /// Offer its holes for allocation.
    Reuse,
}

/// What the sweep of mature blocks does with a block in state `state`: give it back where it is
/// to be defragmented or nothing in it has a count, unless a mutator is filling it; and offer it
/// for allocation where it has holes and is not offered already.
pub open spec fn mature_sweep(
    state: BlockState,
    defrag: bool,
    counts_clear: bool,
    holes: bool,
) -> MatureSweep {
    if state == BlockState::Unallocated || state == BlockState::Nursery || state
        == BlockState::Reusing {
        MatureSweep::Keep
    } else if defrag || counts_clear {
        MatureSweep::Release
    } else if holes && !state.reusable() {
        MatureSweep::Reuse
    } else {
        MatureSweep::Keep
    }
}

/// What the sweep of mature blocks makes of `block`.
pub open spec fn mature_swept<H>(
    before: LXRSpace<H>,
    block: Block,
    defrag: bool,
    after: LXRSpace<H>,
    released: bool,
) -> bool {
    let i = before.immix.block_index(block);
    let verdict = mature_sweep(
        before.immix.state(block),
        defrag,
        before.counts_clear(block),
        before.holes_in(block),
    );
    &&& released == (verdict == MatureSweep::Release)
    &&& after == (LXRSpace {
        immix: ImmixSpace {
            block_states: after.immix.block_states,
            reusable_blocks: after.immix.reusable_blocks,
            pr: after.immix.pr,
            field_unlog: after.immix.field_unlog,
            ..before.immix
        },
        ..before
    })
    &&& match verdict {
        MatureSweep::Keep => after == before,
        MatureSweep::Release => {
            &&& after.immix.block_states@ == before.immix.block_states@.update(
                i,
                BlockState::Unallocated,
            )
            &&& after.immix.reusable_blocks == before.immix.reusable_blocks
            &&& given_back(before.immix, block, after.immix)
            &&& after.immix.field_unlog@ == filled(
                before.immix.field_unlog@,
                before.immix.word(block@),
                before.immix.word(block@) + 4096,
                0,
            )
        },
        MatureSweep::Reuse => {
            &&& after.immix.block_states@ == before.immix.block_states@.update(
                i,
                BlockState::Reusable { unavailable_lines: 1 },
            )
            &&& after.immix.reusable_blocks@ == before.immix.reusable_blocks@.push(block)
            &&& after.immix.pr == before.immix.pr
            &&& after.immix.field_unlog == before.immix.field_unlog
        },
    }
}

/// The operations on blocks that only LXR has.
pub trait LXRBlockExt {
    /// The block that this is.
    spec fn as_block(&self) -> Block;

    /// How many lines of the block have no object with a count.
    fn calc_dead_lines<H>(&self, space: &LXRSpace<H>) -> (n: usize)
        requires
            space.wf(),
            space.immix.has_block(self.as_block()),
        ensures
            n == dead_lines(
                space.rc.counts@,
                space.immix.line_index(self.as_block()@),
                128,
            ),
    ;

    /// Sets every count in the block to zero.
    fn clear_rc_table<H>(&self, space: &mut LXRSpace<H>)
        requires
            old(space).wf(),
            old(space).immix.has_block(self.as_block()),
        ensures
            final(space).wf(),
            *final(space) == (LXRSpace {
                rc: RefCountHelper { counts: final(space).rc.counts, ..old(space).rc },
                ..*old(space)
            }),
            final(space).rc.counts@ == filled(
                old(space).rc.counts@,
                old(space).immix.granule(self.as_block()@),
                old(space).immix.granule(self.as_block()@) + 2048,
                0,
            ),
            final(space).counts_clear(self.as_block()),
    ;

    /// Forgets which lines of the block are covered by objects that start before them.
    fn clear_striddle_table<H>(&self, space: &mut LXRSpace<H>)
        requires
            old(space).wf(),
            old(space).immix.has_block(self.as_block()),
        ensures
            final(space).wf(),
            *final(space) == (LXRSpace {
                rc: RefCountHelper { straddle: final(space).rc.straddle, ..old(space).rc },
                ..*old(space)
            }),
            final(space).rc.straddle@ == filled(
                old(space).rc.straddle@,
                old(space).immix.line_index(self.as_block()@),
                old(space).immix.line_index(self.as_block()@) + 128,
                0,
            ),
    ;

    /// Takes away every mark in the block.
    fn clear_mark_table<H>(&self, space: &mut LXRSpace<H>)
        requires
            old(space).wf(),
            old(space).immix.has_block(self.as_block()),
        ensures
            final(space).wf(),
            *final(space) == (LXRSpace {
                immix: ImmixSpace { mark: final(space).immix.mark, ..old(space).immix },
                ..*old(space)
            }),
            final(space).immix.mark@ == filled(
                old(space).immix.mark@,
                old(space).immix.granule(self.as_block()@),
                old(space).immix.granule(self.as_block()@) + 2048,
                0,
            ),
    ;

    /// Marks everything in the block.
    fn initialize_mark_table_as_marked<H>(&self, space: &mut LXRSpace<H>)
        requires
            old(space).wf(),
            old(space).immix.has_block(self.as_block()),
        ensures
            final(space).wf(),
            *final(space) == (LXRSpace {
                immix: ImmixSpace { mark: final(space).immix.mark, ..old(space).immix },
                ..*old(space)
            }),
            final(space).immix.mark@ == filled(
                old(space).immix.mark@,
                old(space).immix.granule(self.as_block()@),
                old(space).immix.granule(self.as_block()@) + 2048,
                MARKED_STATE,
            ),
    ;

    /// Logs the block. Says whether it was not logged before.
    fn log<H>(&self, space: &mut LXRSpace<H>) -> (fresh: bool)
        requires
            old(space).wf(),
            old(space).immix.has_block(self.as_block()),
        ensures
            final(space).wf(),
            *final(space) == (LXRSpace {
                immix: ImmixSpace { block_log: final(space).immix.block_log, ..old(space).immix },
                ..*old(space)
            }),
            fresh == (old(space).immix.block_log@[old(space).immix.block_index(self.as_block())]
                == 0),
            final(space).immix.block_log@ == old(space).immix.block_log@.update(
                old(space).immix.block_index(self.as_block()),
                1,
            ),
    ;

    /// Makes the block one that is not logged.
    fn unlog<H>(&self, space: &mut LXRSpace<H>)
        requires
            old(space).wf(),
            old(space).immix.has_block(self.as_block()),
        ensures
            final(space).wf(),
            *final(space) == (LXRSpace {
                immix: ImmixSpace { block_log: final(space).immix.block_log, ..old(space).immix },
                ..*old(space)
            }),
            final(space).immix.block_log@ == old(space).immix.block_log@.update(
                old(space).immix.block_index(self.as_block()),
                0,
            ),
    ;

    /// Sets the field log entries of the whole block to unlogged.
    fn initialize_field_unlog_table_as_unlogged<H>(&self, space: &mut LXRSpace<H>)
        requires
            old(space).wf(),
            old(space).immix.has_block(self.as_block()),
        ensures
            final(space).wf(),
            *final(space) == (LXRSpace {
                immix: ImmixSpace {
                    field_unlog: final(space).immix.field_unlog,
                    ..old(space).immix
                },
                ..*old(space)
            }),
            final(space).immix.field_unlog@ == filled(
                old(space).immix.field_unlog@,
                old(space).immix.word(self.as_block()@),
                old(space).immix.word(self.as_block()@) + 4096,
                1,
            ),
    ;

    /// Whether no object in the block has a count.
    fn rc_dead<H>(&self, space: &LXRSpace<H>) -> (b: bool)
        requires
            space.wf(),
            space.immix.has_block(self.as_block()),
        ensures
            b == space.counts_clear(self.as_block()),
    ;

    /// Whether the block has a hole to allocate into.
    fn has_holes<H>(&self, space: &LXRSpace<H>) -> (b: bool)
        requires
            space.wf(),
            space.immix.has_block(self.as_block()),
        ensures
            b == space.holes_in(self.as_block()),
    ;

    /// Claims a block with holes for a mutator. Says whether the block was there to be claimed.
    fn attempt_mutator_reuse<H>(&self, space: &mut LXRSpace<H>) -> (claimed: bool)
        requires
            old(space).wf(),
            old(space).immix.has_block(self.as_block()),
        ensures
            final(space).wf(),
            claimed == old(space).immix.state(self.as_block()).reusable(),
            !claimed ==> *final(space) == *old(space),
            claimed ==> *final(space) == (LXRSpace {
                immix: ImmixSpace {
                    block_states: final(space).immix.block_states,
                    ..old(space).immix
                },
                ..*old(space)
            }) && final(space).immix.block_states@ == old(space).immix.block_states@.update(
                old(space).immix.block_index(self.as_block()),
                BlockState::Reusing,
            ),
    ;

    /// Sweeps a block that held new objects. If survivors were promoted where they are, its holes
    /// are offered for allocation, and the block must be handed out; otherwise nothing in it may
    /// have a count, and it is given back.
    /// Says whether it was given back.
    fn rc_sweep_nursery<H>(&self, space: &mut LXRSpace<H>) -> (released: bool)
        requires
            old(space).wf(),
            old(space).immix.has_block(self.as_block()),
            old(space).immix.promoted_in_place(self.as_block()) ==> old(space).immix.in_use(
                self.as_block(),
            ),
            !old(space).immix.promoted_in_place(self.as_block()) ==> {
                &&& old(space).immix.state(self.as_block()) != BlockState::Unallocated
                &&& old(space).counts_clear(self.as_block())
            },
        ensures
            final(space).wf(),
            nursery_swept(*old(space), self.as_block(), *final(space), released),
    ;

    /// Sweeps a block that held old objects. Says whether it was given back.
    fn rc_sweep_mature<H>(&self, space: &mut LXRSpace<H>, defrag: bool) -> (released: bool)
        requires
            old(space).wf(),
            old(space).immix.has_block(self.as_block()),
        ensures
            final(space).wf(),
            mature_swept(*old(space), self.as_block(), defrag, *final(space), released),
    ;
}

impl LXRBlockExt for Block {
    open spec fn as_block(&self) -> Block {
        *self
    }

    #[verifier::spinoff_prover]
    fn calc_dead_lines<H>(&self, space: &LXRSpace<H>) -> (n: usize) {
        let first: usize = self.index_in(&space.immix) * 128;
        assert(first == space.immix.line_index(self@));
        let mut dead: usize = 0;
        let mut i: usize = 0;
        while i < Block::LINES
            invariant
                i <= 128,
                space.rc.wf(),
                first + 128 <= space.rc.straddle@.len(),
                dead == dead_lines(space.rc.counts@, first as int, i as nat),
                dead <= i,
            decreases 128 - i,
        {
            if space.rc.is_line_dead(first + i) {
                dead += 1;
            }
            i += 1;
        }
        dead
    }

    #[verifier::spinoff_prover]
    fn clear_rc_table<H>(&self, space: &mut LXRSpace<H>) {
        let first: usize = self.index_in(&space.immix) * 2048;
        assert(first == space.immix.granule(self@));
        space.rc.counts.fill(first, first + 2048, 0);
    }

    fn clear_striddle_table<H>(&self, space: &mut LXRSpace<H>) {
        let first: usize = self.index_in(&space.immix) * 128;
        assert(first == space.immix.line_index(self@));
        space.rc.straddle.fill(first, first + 128, 0);
    }

    fn clear_mark_table<H>(&self, space: &mut LXRSpace<H>) {
        let first: usize = self.index_in(&space.immix) * 2048;
        assert(first == space.immix.granule(self@));
        space.immix.mark.fill(first, first + 2048, 0);
    }

    #[verifier::spinoff_prover]
    fn initialize_mark_table_as_marked<H>(&self, space: &mut LXRSpace<H>) {
        let first: usize = self.index_in(&space.immix) * 2048;
        assert(first == space.immix.granule(self@));
        space.immix.mark.fill(first, first + 2048, MARKED_STATE);
    }

    fn log<H>(&self, space: &mut LXRSpace<H>) -> (fresh: bool) {
        let i: usize = self.index_in(&space.immix);
        if space.immix.block_log.load(i) == 1 {
            assert(space.immix.block_log@.update(i as int, 1) == space.immix.block_log@);
            return false;
        }
        space.immix.block_log.compare_exchange(i, 0, 1).is_ok()
    }

    fn unlog<H>(&self, space: &mut LXRSpace<H>) {
        let i: usize = self.index_in(&space.immix);
        space.immix.block_log.store(i, 0);
    }

    #[verifier::spinoff_prover]
    fn initialize_field_unlog_table_as_unlogged<H>(&self, space: &mut LXRSpace<H>) {
        let first: usize = self.index_in(&space.immix) * 4096;
        assert(first == space.immix.word(self@));
        space.immix.field_unlog.fill(first, first + 4096, 1);
    }

    #[verifier::spinoff_prover]
    fn rc_dead<H>(&self, space: &LXRSpace<H>) -> (b: bool) {
        let first: usize = self.index_in(&space.immix) * 2048;
        assert(first == space.immix.granule(self@));
        let mut g: usize = first;
        while g < first + 2048
            invariant
                first == space.immix.granule(self@),
                first + 2048 <= usize::MAX,
                first <= g <= first + 2048,
                first + 2048 <= space.rc.counts@.len(),
                forall|h: int|
                    #![trigger space.rc.counts@[h]]
                    first <= h < g ==> space.rc.counts@[h] == 0,
            decreases first + 2048 - g,
        {
            if space.rc.counts.load(g) != 0 {
                return false;
            }
            g += 1;
        }
        true
    }

    #[verifier::spinoff_prover]
    fn has_holes<H>(&self, space: &LXRSpace<H>) -> (b: bool) {
        let first: usize = self.index_in(&space.immix) * 128;
        assert(first == space.immix.line_index(self@));
        let mut found_free_line = false;
        let mut i: usize = 0;
        while i < Block::LINES
            invariant
                i <= 128,
                space.rc.wf(),
                first + 128 <= space.rc.straddle@.len(),
                first == space.immix.line_index(self@),
                found_free_line == (i > 0 && space.dead(*self, i - 1)),
                forall|j: int| 0 <= j < i ==> !#[trigger] space.hole_at(*self, 0, j),
            decreases 128 - i,
        {
            if space.rc.is_line_dead(first + i) {
                if i == 0 || found_free_line {
                    assert(space.hole_at(*self, 0, i as int));
                    return true;
                }
                found_free_line = true;
            } else {
                found_free_line = false;
            }
            i += 1;
        }
        false
    }

    fn attempt_mutator_reuse<H>(&self, space: &mut LXRSpace<H>) -> (claimed: bool) {
        if self.get_state(&space.immix).is_reusable() {
            proof {
                space.immix.lemma_allocated_in_use(*self);
            }
            self.set_state(&mut space.immix, BlockState::Reusing);
            true
        } else {
            false
        }
    }

    #[verifier::spinoff_prover]
    fn rc_sweep_nursery<H>(&self, space: &mut LXRSpace<H>) -> (released: bool) {
        proof {
            if !space.immix.promoted_in_place(*self) {
                space.immix.lemma_allocated_in_use(*self);
            }
        }
        let is_in_place_promoted = self.is_in_place_promoted(&space.immix);
        self.clear_in_place_promoted(&mut space.immix);
        if is_in_place_promoted {
            self.set_state(&mut space.immix, BlockState::Reusable { unavailable_lines: 1 });
            space.immix.reusable_blocks.push(*self);
            false
        } else {
            space.immix.release_block(*self, false);
            true
        }
    }

    #[verifier::spinoff_prover]
    fn rc_sweep_mature<H>(&self, space: &mut LXRSpace<H>, defrag: bool) -> (released: bool) {
        let state = self.get_state(&space.immix);
        if state == BlockState::Unallocated || state == BlockState::Nursery {
            return false;
        }
        if defrag || self.rc_dead(space) {
            if self.attempt_dealloc(&mut space.immix, true) {
                space.immix.release_block(*self, true);
                assert(space.immix.block_states@ == old(space).immix.block_states@.update(
                    old(space).immix.block_index(*self),
                    BlockState::Unallocated,
                ));
                return true;
            }
        } else if !BLOCK_ONLY {
            let has_holes = self.has_holes(space);
            if state != BlockState::Reusing && !state.is_reusable() && has_holes {
                proof {
                    space.immix.lemma_allocated_in_use(*self);
                }
                self.set_state(&mut space.immix, BlockState::Reusable { unavailable_lines: 1 });
                space.immix.reusable_blocks.push(*self);
            }
        }
        false
    }
}

} // verus!
