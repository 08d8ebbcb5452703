//! The state that an immix space keeps for its blocks, lines and objects.
use crate::policy::immix::block::{block_of, Block, BlockState};
use crate::policy::immix::line::Line;
use crate::scheduler::GCWorkScheduler;
use crate::util::address::{Address, ObjectReference};
use crate::util::constants::BYTES_IN_CHUNK;
use crate::util::heap::chunk_map::ChunkMap;
use crate::util::metadata::side_metadata::{filled, SideMetadataSpec, SideTable};
use crate::util::object_forwarding::ForwardingTable;
use vstd::prelude::*;

verus! {

/// Whether the space reuses whole blocks only.
pub const BLOCK_ONLY: bool = false;

/// The mark of an object that the current trace has reached, once the mark state has been reset.
pub const MARKED_STATE: u8 = 1;

/// The part of the space, in percent, kept free for the copies that a collection makes.
pub const DEFRAG_HEADROOM_PERCENT: usize = 2;

/// What every kind of space has.
pub struct CommonSpace {
    pub name: &'static str,
    /// Where the memory of the space begins.
    pub start: usize,
    /// Whether stores into the objects of the space are logged.
    pub needs_log_bit: bool,
    /// The tables registered for the space beside the usual ones.
    pub extra_metadata: Vec<SideMetadataSpec>,
}

/// What a space is created with.
pub struct PlanCreateSpaceArgs {
    pub name: &'static str,
    pub start: Address,
    /// How many blocks of memory the space has.
    pub blocks: usize,
    pub needs_log_bit: bool,
    /// How many workers the collector has.
    pub workers: usize,
}

/// What an immix space is created with.
#[derive(Copy, Clone)]
pub struct ImmixSpaceArgs {
    /// The space is never to move an object.
    pub never_move_objects: bool,
}

/// The blocks that are not handed out.
pub struct BlockPageResource {
    /// Blocks to hand out.
    pub free: Vec<Block>,
    /// Blocks given back since the last flush, not to be handed out before the next one.
    pub released: Vec<Block>,
    /// How many blocks are handed out.
    pub reserved_blocks: usize,
}

impl BlockPageResource {
    /// Every block that is not handed out.
    pub open spec fn unused(&self) -> Seq<Block> {
        self.free@ + self.released@
    }

    /// Makes the blocks given back since the last flush available again.
    pub fn flush(&mut self)
        ensures
            final(self).free@ == old(self).unused(),
            final(self).released@ == Seq::<Block>::empty(),
            final(self).reserved_blocks == old(self).reserved_blocks,
    {
        self.free.append(&mut self.released);
    }

    pub fn reserved_pages(&self) -> (pages: usize)
        requires
            self.reserved_blocks * 8 <= usize::MAX,
        ensures
            pages == self.reserved_blocks * 8,
    {
        self.reserved_blocks * Block::PAGES
    }
}

/// The state of a collection that moves objects out of sparse blocks.
#[derive(Copy, Clone)]
pub struct Defrag {
    pub in_defrag: bool,
    /// Clean pages that copies may still take.
    pub available_clean_pages: usize,
    /// Copies have taken every clean page they may.
    pub exhausted: bool,
}

impl Defrag {
    /// The state after a clean block was handed out, for copies if `copy` is set.
    pub open spec fn after_clean_block(self, copy: bool) -> Defrag {
        if !copy {
            self
        } else if self.available_clean_pages <= 8 {
            Defrag { available_clean_pages: 0, exhausted: true, ..self }
        } else {
            Defrag { available_clean_pages: (self.available_clean_pages - 8) as usize, ..self }
        }
    }

    pub fn notify_new_clean_block(&mut self, copy: bool)
        ensures
            *final(self) == old(self).after_clean_block(copy),
    {
        if copy {
            if self.available_clean_pages <= Block::PAGES {
                self.available_clean_pages = 0;
                self.exhausted = true;
            } else {
                self.available_clean_pages = self.available_clean_pages - Block::PAGES;
            }
        }
    }
}

/// A space whose memory is handed out in blocks.
pub struct ImmixSpace {
    pub common: CommonSpace,
    pub space_args: ImmixSpaceArgs,
    pub pr: BlockPageResource,
    pub chunk_map: ChunkMap,
    /// One mark per granule.
    pub mark: SideTable,
    /// One entry per word: zero where stores to the word are not to be logged.
    pub field_unlog: SideTable,
    /// One count per line.
    pub line_reuse_counts: SideTable,
    /// One entry per block: one where the block has been logged.
    pub block_log: SideTable,
    pub forwarding: ForwardingTable,
    pub block_states: Vec<BlockState>,
    /// The blocks that objects are to be moved out of.
    pub defrag_sources: Vec<bool>,
    /// The blocks whose survivors were promoted where they are.
    pub in_place_promoted: Vec<bool>,
    /// The value of a mark that says that the object was reached.
    pub mark_state: u8,
    pub defrag: Defrag,
    /// Blocks that may have holes to fill. Some may not any more.
    pub reusable_blocks: Vec<Block>,
    /// How many lines mutators were given again since the last collection.
    pub reused_lines_consumed: usize,
    pub scheduler: GCWorkScheduler,
}

/// A sequence of distinct numbers below `n`, none of which is `missing`, has fewer than `n` of
/// them.
proof fn lemma_distinct_below(s: Seq<int>, n: int, missing: int)
    requires
        s.no_duplicates(),
        forall|i: int| 0 <= i < s.len() ==> 0 <= #[trigger] s[i] < n && s[i] != missing,
        0 <= missing < n,
    ensures
        s.len() < n,
{
    let all = vstd::set_lib::set_int_range(0, n);
    vstd::set_lib::lemma_int_range(0, n);
    s.unique_seq_to_set();
    assert(s.to_set().subset_of(all.remove(missing))) by {
        assert forall|x: int| s.to_set().contains(x) implies all.remove(missing).contains(x) by {
            let i = choose|i: int| 0 <= i < s.len() && s[i] == x;
            assert(0 <= s[i] < n);
        }
    }
    vstd::set_lib::lemma_len_subset(s.to_set(), all.remove(missing));
}

impl ImmixSpace {
    /// How many blocks of memory the space has.
    pub open spec fn blocks(&self) -> int {
        self.block_states@.len() as int
    }

    /// Whether the memory at `address` belongs to the space.
    pub open spec fn covers(&self, address: int) -> bool {
        self.common.start <= address < self.common.start + self.blocks() * 32768
    }

    /// Whether `block` is a block of the space.
    pub open spec fn has_block(&self, block: Block) -> bool {
        block.wf() && self.covers(block@)
    }

    pub open spec fn block_index(&self, block: Block) -> int {
        (block@ - self.common.start) / 32768
    }

    pub open spec fn state(&self, block: Block) -> BlockState {
        self.block_states@[self.block_index(block)]
    }

    pub open spec fn defrag_source(&self, block: Block) -> bool {
        self.defrag_sources@[self.block_index(block)]
    }

    pub open spec fn promoted_in_place(&self, block: Block) -> bool {
        self.in_place_promoted@[self.block_index(block)]
    }

    pub open spec fn granule(&self, address: int) -> int {
        (address - self.common.start) / 16
    }

    pub open spec fn word(&self, address: int) -> int {
        (address - self.common.start) / 8
    }

    pub open spec fn line_index(&self, address: int) -> int {
        (address - self.common.start) / 256
    }

    pub open spec fn chunk_index(&self, address: int) -> int {
        (address - self.common.start) / 0x40_0000
    }

    pub open spec fn marked(&self, object: ObjectReference) -> bool {
        self.mark@[self.granule(object@)] == self.mark_state
    }

    /// The tables have one entry for each unit of the space's memory, and the mark differs from no
    /// mark.
    pub open spec fn tables_wf(&self) -> bool {
        let n = self.blocks();
        &&& self.common.start % 0x40_0000 == 0
        &&& self.common.start + n * 32768 <= usize::MAX
        &&& self.mark@.len() == n * 2048
        &&& self.mark_state != 0
        &&& self.field_unlog@.len() == n * 4096
        &&& self.line_reuse_counts@.len() == n * 128
        &&& self.block_log@.len() == n
        &&& forall|i: int| 0 <= i < n ==> #[trigger] self.block_log@[i] <= 1
        &&& self.defrag_sources@.len() == n
        &&& self.in_place_promoted@.len() == n
        &&& self.forwarding.wf()
        &&& self.forwarding.start == self.common.start
        &&& self.forwarding.status@.len() == n * 2048
        &&& self.chunk_map@.len() * 128 >= n
    }

    /// Each block that is not handed out is listed once, and its state says so; nothing else is
    /// listed.
    pub open spec fn pages_wf(&self) -> bool {
        let unused = self.pr.unused();
        &&& forall|i: int|
            0 <= i < unused.len() ==> self.has_block(#[trigger] unused[i]) && self.state(unused[i])
                == BlockState::Unallocated
        &&& unused.no_duplicates()
        &&& self.pr.reserved_blocks + unused.len() == self.blocks()
    }

    pub open spec fn wf(&self) -> bool {
        &&& self.tables_wf()
        &&& self.pages_wf()
        &&& forall|i: int|
            0 <= i < self.reusable_blocks@.len() ==> self.has_block(
                #[trigger] self.reusable_blocks@[i],
            )
    }

    /// Whether `block` is handed out.
    pub open spec fn in_use(&self, block: Block) -> bool {
        !self.pr.unused().contains(block)
    }

    /// The block that an address of the space lies in is a block of the space.
    #[verifier::spinoff_prover]
    pub proof fn lemma_block_of(&self, address: int)
        requires
            self.tables_wf(),
            self.covers(address),
        ensures
            self.has_block(block_of(address)),
            block_of(address)@ == address - address % 32768,
            block_of(address)@ + 32768 <= self.common.start + self.blocks() * 32768,
    {
        assert(self.common.start % 32768 == 0);
    }

    /// A block whose state is not `Unallocated` is handed out.
    pub proof fn lemma_allocated_in_use(&self, block: Block)
        requires
            self.wf(),
            self.state(block) != BlockState::Unallocated,
        ensures
            self.in_use(block),
    {
        if self.pr.unused().contains(block) {
            let i = choose|i: int| 0 <= i < self.pr.unused().len() && self.pr.unused()[i] == block;
            assert(self.state(self.pr.unused()[i]) == BlockState::Unallocated);
        }
    }

    /// Where a block of the space is handed out, the count of blocks handed out is not zero.
    #[verifier::spinoff_prover]
    proof fn lemma_in_use_counted(&self, block: Block)
        requires
            self.tables_wf(),
            self.pages_wf(),
            self.has_block(block),
            self.in_use(block),
        ensures
            self.pr.reserved_blocks > 0,
    {
        let unused = self.pr.unused();
        let indices = Seq::new(unused.len(), |i: int| self.block_index(unused[i]));
        assert forall|i: int, j: int|
            0 <= i < indices.len() && 0 <= j < indices.len() && i != j implies indices[i]
            != indices[j] by {
            assert(self.has_block(unused[i]) && self.has_block(unused[j]));
            assert(unused[i] != unused[j]);
            if indices[i] == indices[j] {
                assert(unused[i]@ == unused[j]@);
            }
        }
        assert forall|i: int| 0 <= i < indices.len() implies 0 <= #[trigger] indices[i]
            < self.blocks() && indices[i] != self.block_index(block) by {
            assert(self.has_block(unused[i]));
            if indices[i] == self.block_index(block) {
                assert(unused[i]@ == block@);
                assert(unused[i] == block);
                assert(unused.contains(block));
            }
        }
        lemma_distinct_below(indices, self.blocks(), self.block_index(block));
    }

    /// A new space. None of its blocks is handed out, and nothing is marked, logged or forwarded.
    #[verifier::spinoff_prover]
    pub fn new_with_extra_side_metadata_specs(
        args: PlanCreateSpaceArgs,
        space_args: ImmixSpaceArgs,
        extra: Vec<SideMetadataSpec>,
    ) -> (s: Self)
        requires
            args.start@ % 0x40_0000 == 0,
            args.start@ + args.blocks * 32768 <= usize::MAX,
        ensures
            s.wf(),
            s.common.name == args.name,
            s.common.start == args.start@,
            s.common.needs_log_bit == args.needs_log_bit,
            s.common.extra_metadata == extra,
            s.space_args == space_args,
            s.blocks() == args.blocks,
            s.pr.reserved_blocks == 0,
            s.pr.free@ == Seq::new(
                args.blocks as nat,
                |i: int| Block(Address((args.start@ + i * 32768) as usize)),
            ),
            s.pr.released@ == Seq::<Block>::empty(),
            s.chunk_map@ == Seq::new((args.blocks as int / 128 + 1) as nat, |i: int| false),
            s.mark@ == Seq::new((args.blocks * 2048) as nat, |i: int| 0u8),
            s.field_unlog@ == Seq::new((args.blocks * 4096) as nat, |i: int| 0u8),
            s.line_reuse_counts@ == Seq::new((args.blocks * 128) as nat, |i: int| 0u8),
            s.block_log@ == Seq::new(args.blocks as nat, |i: int| 0u8),
            s.forwarding.status@ == Seq::new((args.blocks * 2048) as nat, |i: int| 0u8),
            s.block_states@ == Seq::new(args.blocks as nat, |i: int| BlockState::Unallocated),
            s.defrag_sources@ == Seq::new(args.blocks as nat, |i: int| false),
            s.in_place_promoted@ == Seq::new(args.blocks as nat, |i: int| false),
            s.mark_state == MARKED_STATE,
            s.defrag == (Defrag { in_defrag: false, available_clean_pages: 0, exhausted: false }),
            s.reusable_blocks@ == Seq::<Block>::empty(),
            s.reused_lines_consumed == 0,
            s.scheduler.workers() == args.workers,
            forall|i: int|
                0 <= i < args.workers ==> (#[trigger] s.scheduler.designated(i)).len() == 0,
    {
        let start: usize = args.start.0;
        let n: usize = args.blocks;
        let mut free: Vec<Block> = Vec::new();
        let mut block_states: Vec<BlockState> = Vec::new();
        let mut defrag_sources: Vec<bool> = Vec::new();
        let mut in_place_promoted: Vec<bool> = Vec::new();
        let mut i: usize = 0;
        while i < n
            invariant
                i <= n,
                start + n * 32768 <= usize::MAX,
                free@ == Seq::new(
                    i as nat,
                    |j: int| Block(Address((start + j * 32768) as usize)),
                ),
                block_states@ == Seq::new(i as nat, |j: int| BlockState::Unallocated),
                defrag_sources@ == Seq::new(i as nat, |j: int| false),
                in_place_promoted@ == Seq::new(i as nat, |j: int| false),
            decreases n - i,
        {
            free.push(Block(Address(start + i * 32768)));
            block_states.push(BlockState::Unallocated);
            defrag_sources.push(false);
            in_place_promoted.push(false);
            i += 1;
        }
        let s = ImmixSpace {
            common: CommonSpace {
                name: args.name,
                start,
                needs_log_bit: args.needs_log_bit,
                extra_metadata: extra,
            },
            space_args,
            pr: BlockPageResource { free, released: Vec::new(), reserved_blocks: 0 },
            chunk_map: ChunkMap::new(n / 128 + 1),
            mark: SideTable::new(n * 2048),
            field_unlog: SideTable::new(n * 4096),
            line_reuse_counts: SideTable::new(n * 128),
            block_log: SideTable::new(n),
            forwarding: ForwardingTable::new(start, n * 2048),
            block_states,
            defrag_sources,
            in_place_promoted,
            mark_state: MARKED_STATE,
            defrag: Defrag { in_defrag: false, available_clean_pages: 0, exhausted: false },
            reusable_blocks: Vec::new(),
            reused_lines_consumed: 0,
            scheduler: GCWorkScheduler::new(args.workers),
        };
        proof {
            let unused = s.pr.unused();
            assert(unused == s.pr.free@);
            assert forall|i: int| 0 <= i < unused.len() implies s.has_block(#[trigger] unused[i])
                && s.state(unused[i]) == BlockState::Unallocated by {
                assert(unused[i]@ == start + i * 32768);
                assert(s.block_index(unused[i]) == i);
            }
        }
        s
    }

    /// Takes a block that is not handed out, if there is one. Its state is left to the caller.
    #[verifier::spinoff_prover]
    pub fn acquire_clean_block_raw(&mut self) -> (block: Option<Block>)
        requires
            old(self).wf(),
        ensures
            final(self).wf(),
            block is Some <==> old(self).pr.free@.len() > 0,
            block is None ==> *final(self) == *old(self),
            block matches Some(b) ==> {
                &&& b == old(self).pr.free@.last()
                &&& old(self).has_block(b)
                &&& old(self).state(b) == BlockState::Unallocated
                &&& !old(self).in_use(b)
                &&& final(self).in_use(b)
                &&& *final(self) == (ImmixSpace { pr: final(self).pr, ..*old(self) })
                &&& final(self).pr.free@ == old(self).pr.free@.drop_last()
                &&& final(self).pr.released == old(self).pr.released
                &&& final(self).pr.reserved_blocks == old(self).pr.reserved_blocks + 1
            },
    {
        if self.pr.free.len() == 0 {
            return None;
        }
        let ghost before = *self;
        let ghost last = self.pr.free@.len() - 1;
        let block = self.pr.free.pop().unwrap();
        self.pr.reserved_blocks = self.pr.reserved_blocks + 1;
        proof {
            let was = before.pr.unused();
            let now = self.pr.unused();
            assert(was[last] == block);
            assert(was.contains(block));
            assert(before.has_block(was[last]));
            assert forall|i: int| 0 <= i < now.len() implies now[i] == was[if i < last {
                i
            } else {
                i + 1
            }] by {}
            assert forall|i: int| 0 <= i < now.len() implies self.has_block(#[trigger] now[i])
                && self.state(now[i]) == BlockState::Unallocated && now[i] != block by {
                let k = if i < last {
                    i
                } else {
                    i + 1
                };
                assert(now[i] == was[k]);
                assert(k != last);
                assert(was[k] != was[last]);
                assert(before.has_block(was[k]));
            }
        }
        Some(block)
    }

    /// Takes `block` back, which is handed out. With `zero_unlog`, its field log entries are
    /// cleared first.
    #[verifier::spinoff_prover]
    pub fn release_block(&mut self, block: Block, zero_unlog: bool)
        requires
            old(self).wf(),
            old(self).has_block(block),
            old(self).in_use(block),
        ensures
            final(self).wf(),
            *final(self) == (ImmixSpace {
                pr: final(self).pr,
                block_states: final(self).block_states,
                field_unlog: final(self).field_unlog,
                ..*old(self)
            }),
            final(self).pr.free == old(self).pr.free,
            final(self).pr.released@ == old(self).pr.released@.push(block),
            final(self).pr.reserved_blocks == old(self).pr.reserved_blocks - 1,
            final(self).block_states@ == old(self).block_states@.update(
                old(self).block_index(block),
                BlockState::Unallocated,
            ),
            final(self).field_unlog@ == (if zero_unlog {
                filled(
                    old(self).field_unlog@,
                    old(self).word(block@),
                    old(self).word(block@) + 4096,
                    0,
                )
            } else {
                old(self).field_unlog@
            }),
            !final(self).in_use(block),
    {
        if zero_unlog {
            let first: usize = (block.0.0 - self.common.start) / 8;
            self.field_unlog.fill(first, first + 4096, 0);
        }
        self.block_states.set((block.0.0 - self.common.start) / 32768, BlockState::Unallocated);
        proof {
            old(self).lemma_in_use_counted(block);
        }
        self.pr.released.push(block);
        self.pr.reserved_blocks = self.pr.reserved_blocks - 1;
        proof {
            let was = old(self).pr.unused();
            let now = self.pr.unused();
            assert(now == was.push(block));
            assert forall|i: int| 0 <= i < now.len() implies self.has_block(#[trigger] now[i])
                && self.state(now[i]) == BlockState::Unallocated by {
                if i < was.len() {
                    assert(now[i] == was[i]);
                    assert(old(self).has_block(was[i]));
                }
            }
            assert forall|i: int, j: int| 0 <= i < j < now.len() implies now[i] != now[j] by {
                assert(now[i] == was[i]);
                if j == was.len() {
                    assert(was.contains(was[i]));
                }
            }
            assert(now[was.len() as int] == block);
            assert forall|i: int| 0 <= i < self.reusable_blocks@.len() implies self.has_block(
                #[trigger] self.reusable_blocks@[i],
            ) by {
                assert(old(self).has_block(old(self).reusable_blocks@[i]));
            }
        }
    }

    /// Makes the blocks given back since the last flush available again.
    pub fn flush_pr_only(&mut self)
        requires
            old(self).wf(),
        ensures
            final(self).wf(),
            *final(self) == (ImmixSpace { pr: final(self).pr, ..*old(self) }),
            final(self).pr.free@ == old(self).pr.unused(),
            final(self).pr.released@ == Seq::<Block>::empty(),
            final(self).pr.reserved_blocks == old(self).pr.reserved_blocks,
    {
        self.pr.flush();
        assert(self.pr.unused() == old(self).pr.unused());
        proof {
            let now = self.pr.unused();
            assert forall|i: int| 0 <= i < now.len() implies self.has_block(#[trigger] now[i])
                && self.state(now[i]) == BlockState::Unallocated by {
                assert(old(self).has_block(old(self).pr.unused()[i]));
            }
        }
    }

    /// The pages to keep free for the copies of a collection.
    pub fn defrag_headroom_pages(&self) -> (pages: usize)
        requires
            self.wf(),
        ensures
            pages == self.pr.reserved_blocks * 8 * 2 / 100,
    {
        self.pr.reserved_pages() * DEFRAG_HEADROOM_PERCENT / 100
    }

    pub fn in_defrag(&self) -> (b: bool)
        ensures
            b == self.defrag.in_defrag,
    {
        self.defrag.in_defrag
    }

    pub fn is_movable(&self) -> (b: bool)
        ensures
            b == !self.space_args.never_move_objects,
    {
        !self.space_args.never_move_objects
    }

    pub fn is_marked(&self, object: ObjectReference) -> (b: bool)
        requires
            self.wf(),
            self.covers(object@),
        ensures
            b == self.marked(object),
    {
        self.mark.load((object.0 - self.common.start) / 16) == self.mark_state
    }

    /// Marks `object`. Says whether it was not marked before.
    pub fn attempt_mark(&mut self, object: ObjectReference) -> (fresh: bool)
        requires
            old(self).wf(),
            old(self).covers(object@),
        ensures
            final(self).wf(),
            fresh == !old(self).marked(object),
            *final(self) == (ImmixSpace { mark: final(self).mark, ..*old(self) }),
            final(self).mark@ == old(self).mark@.update(
                old(self).granule(object@),
                old(self).mark_state,
            ),
            final(self).marked(object),
    {
        let i: usize = (object.0 - self.common.start) / 16;
        if self.mark.load(i) == self.mark_state {
            assert(self.mark@ == old(self).mark@.update(i as int, self.mark_state));
            false
        } else {
            self.mark.store(i, self.mark_state);
            true
        }
    }

    /// Takes the mark of `object` away. Says whether it had one.
    pub fn unmark(&mut self, object: ObjectReference) -> (had_mark: bool)
        requires
            old(self).wf(),
            old(self).covers(object@),
        ensures
            final(self).wf(),
            had_mark == (old(self).mark@[old(self).granule(object@)] != 0),
            *final(self) == (ImmixSpace { mark: final(self).mark, ..*old(self) }),
            final(self).mark@ == old(self).mark@.update(old(self).granule(object@), 0),
    {
        let i: usize = (object.0 - self.common.start) / 16;
        let had_mark = self.mark.load(i) != 0;
        self.mark.store(i, 0);
        had_mark
    }

    pub fn reset_mark_state_to_marked(&mut self)
        ensures
            *final(self) == (ImmixSpace { mark_state: MARKED_STATE, ..*old(self) }),
    {
        self.mark_state = MARKED_STATE;
    }

    pub fn reset_reused_lines_consumed(&mut self)
        ensures
            *final(self) == (ImmixSpace { reused_lines_consumed: 0, ..*old(self) }),
    {
        self.reused_lines_consumed = 0;
    }

    pub fn add_reused_lines_consumed(&mut self, lines: usize)
        ensures
            *final(self) == (ImmixSpace {
                reused_lines_consumed: final(self).reused_lines_consumed,
                ..*old(self)
            }),
            final(self).reused_lines_consumed == old(self).reused_lines_consumed.wrapping_add(
                lines,
            ),
    {
        self.reused_lines_consumed = self.reused_lines_consumed.wrapping_add(lines);
    }

    pub fn reused_lines_consumed_count(&self) -> (lines: usize)
        ensures
            lines == self.reused_lines_consumed,
    {
        self.reused_lines_consumed
    }

    /// Sets the whole field log table to `value`.
    pub fn fill_side_log_bits(&mut self, value: u8)
        requires
            old(self).wf(),
        ensures
            final(self).wf(),
            *final(self) == (ImmixSpace { field_unlog: final(self).field_unlog, ..*old(self) }),
            final(self).field_unlog@ == Seq::new(old(self).field_unlog@.len(), |i: int| value),
    {
        let n: usize = self.field_unlog.entries.len();
        self.field_unlog.fill(0, n, value);
        assert(self.field_unlog@ == Seq::new(old(self).field_unlog@.len(), |i: int| value));
    }
}

/// The state of a block that has just been handed out: for copies if `copy` is set, and for the
/// holes in it if `reuse` is set.
pub open spec fn initial_state(copy: bool, reuse: bool) -> BlockState {
    if copy {
        BlockState::Unmarked
    } else if reuse {
        BlockState::Reusing
    } else {
        BlockState::Nursery
    }
}

/// The state of a block that the sweep tries to give back, if it is to be given back.
pub open spec fn dealloc_state(state: BlockState, ignore_reusing: bool) -> Option<BlockState> {
    if (ignore_reusing && state == BlockState::Reusing) || state == BlockState::Unallocated {
        None
    } else {
        Some(BlockState::Unallocated)
    }
}

impl Block {
    /// The index of the block in the tables of `space`.
    pub fn index_in(&self, space: &ImmixSpace) -> (i: usize)
        requires
            space.tables_wf(),
            space.has_block(*self),
        ensures
            i == space.block_index(*self),
            i < space.blocks(),
            self@ == space.common.start + i * 32768,
    {
        (self.0.0 - space.common.start) / 32768
    }

    /// The index of the chunk that the block is part of.
    pub fn chunk(&self, space: &ImmixSpace) -> (i: usize)
        requires
            space.tables_wf(),
            space.has_block(*self),
        ensures
            i == space.chunk_index(self@),
            i < space.chunk_map@.len(),
    {
        (self.0.0 - space.common.start) / BYTES_IN_CHUNK
    }

    pub fn get_state(&self, space: &ImmixSpace) -> (state: BlockState)
        requires
            space.tables_wf(),
            space.has_block(*self),
        ensures
            state == space.state(*self),
    {
        space.block_states[self.index_in(space)]
    }

    /// Sets the state of a block that is handed out.
    #[verifier::spinoff_prover]
    pub fn set_state(&self, space: &mut ImmixSpace, state: BlockState)
        requires
            old(space).wf(),
            old(space).has_block(*self),
            old(space).in_use(*self),
        ensures
            final(space).wf(),
            *final(space) == (ImmixSpace {
                block_states: final(space).block_states,
                ..*old(space)
            }),
            final(space).block_states@ == old(space).block_states@.update(
                old(space).block_index(*self),
                state,
            ),
    {
        let i: usize = self.index_in(space);
        space.block_states.set(i, state);
        proof {
            let unused = space.pr.unused();
            assert forall|k: int| 0 <= k < unused.len() implies space.has_block(#[trigger] unused[k])
                && space.state(unused[k]) == BlockState::Unallocated by {
                assert(old(space).has_block(unused[k]));
                assert(unused.contains(unused[k]));
                assert(unused[k] != *self);
                if space.block_index(unused[k]) == i {
                    assert(unused[k]@ == self@);
                }
            }
            assert forall|k: int| 0 <= k < space.reusable_blocks@.len() implies space.has_block(
                #[trigger] space.reusable_blocks@[k],
            ) by {
                assert(old(space).has_block(old(space).reusable_blocks@[k]));
            }
        }
    }

    pub fn is_defrag_source(&self, space: &ImmixSpace) -> (b: bool)
        requires
            space.tables_wf(),
            space.has_block(*self),
        ensures
            b == space.defrag_source(*self),
    {
        space.defrag_sources[self.index_in(space)]
    }

    pub fn set_as_defrag_source(&self, space: &mut ImmixSpace, defrag: bool)
        requires
            old(space).wf(),
            old(space).has_block(*self),
        ensures
            final(space).wf(),
            *final(space) == (ImmixSpace {
                defrag_sources: final(space).defrag_sources,
                ..*old(space)
            }),
            final(space).defrag_sources@ == old(space).defrag_sources@.update(
                old(space).block_index(*self),
                defrag,
            ),
    {
        let i: usize = self.index_in(space);
        space.defrag_sources.set(i, defrag);
    }

    pub fn is_in_place_promoted(&self, space: &ImmixSpace) -> (b: bool)
        requires
            space.tables_wf(),
            space.has_block(*self),
        ensures
            b == space.promoted_in_place(*self),
    {
        space.in_place_promoted[self.index_in(space)]
    }

    pub fn clear_in_place_promoted(&self, space: &mut ImmixSpace)
        requires
            old(space).wf(),
            old(space).has_block(*self),
        ensures
            final(space).wf(),
            *final(space) == (ImmixSpace {
                in_place_promoted: final(space).in_place_promoted,
                ..*old(space)
            }),
            final(space).in_place_promoted@ == old(space).in_place_promoted@.update(
                old(space).block_index(*self),
                false,
            ),
    {
        let i: usize = self.index_in(space);
        space.in_place_promoted.set(i, false);
    }

    /// Sets the block up for its new user: for copies if `copy` is set, and for the holes in it if
    /// `reuse` is set.
    pub fn init(&self, space: &mut ImmixSpace, copy: bool, reuse: bool)
        requires
            old(space).wf(),
            old(space).has_block(*self),
            old(space).in_use(*self),
        ensures
            final(space).wf(),
            *final(space) == (ImmixSpace {
                block_states: final(space).block_states,
                defrag_sources: final(space).defrag_sources,
                in_place_promoted: final(space).in_place_promoted,
                ..*old(space)
            }),
            final(space).block_states@ == old(space).block_states@.update(
                old(space).block_index(*self),
                initial_state(copy, reuse),
            ),
            final(space).defrag_sources@ == (if !copy && reuse {
                old(space).defrag_sources@
            } else {
                old(space).defrag_sources@.update(old(space).block_index(*self), false)
            }),
            final(space).in_place_promoted@ == (if reuse {
                old(space).in_place_promoted@
            } else {
                old(space).in_place_promoted@.update(old(space).block_index(*self), false)
            }),
    {
        if !reuse {
            self.clear_in_place_promoted(space);
        }
        if !copy && reuse {
            self.set_state(space, BlockState::Reusing);
        } else if copy {
            self.set_state(space, BlockState::Unmarked);
            self.set_as_defrag_source(space, false);
        } else {
            self.set_state(space, BlockState::Nursery);
            self.set_as_defrag_source(space, false);
        }
    }

    /// Tries to claim the block for being given back. A block that mutators are filling is left
    /// alone if `ignore_reusing` is set. Says whether the block was claimed.
    pub fn attempt_dealloc(&self, space: &mut ImmixSpace, ignore_reusing: bool) -> (claimed: bool)
        requires
            old(space).wf(),
            old(space).has_block(*self),
        ensures
            final(space).wf(),
            claimed == (dealloc_state(old(space).state(*self), ignore_reusing) is Some),
            !claimed ==> *final(space) == *old(space),
            claimed ==> final(space).in_use(*self) && *final(space) == (ImmixSpace {
                block_states: final(space).block_states,
                ..*old(space)
            }) && final(space).block_states@ == old(space).block_states@.update(
                old(space).block_index(*self),
                BlockState::Unallocated,
            ),
    {
        let state = self.get_state(space);
        if (ignore_reusing && state == BlockState::Reusing) || state == BlockState::Unallocated {
            false
        } else {
            proof {
                space.lemma_allocated_in_use(*self);
            }
            self.set_state(space, BlockState::Unallocated);
            true
        }
    }
}

/// The counts `s` with those from `lo` up to `hi` one higher, going back to zero after 255.
pub open spec fn incremented(s: Seq<u8>, lo: int, hi: int) -> Seq<u8> {
    Seq::new(
        s.len(),
        |i: int|
            if lo <= i < hi {
                s[i].wrapping_add(1)
            } else {
                s[i]
            },
    )
}

/// Whether `start` and `end` bound a run of lines of `space`.
pub open spec fn lines_of(space: ImmixSpace, start: Line, end: Line) -> bool {
    &&& start.wf()
    &&& end.wf()
    &&& space.common.start <= start@ <= end@ <= space.common.start + space.blocks() * 32768
}

impl Line {
    /// Clears the field log entries of the lines from `start` up to `end`.
    pub fn clear_field_unlog_table(space: &mut ImmixSpace, start: Line, end: Line)
        requires
            old(space).wf(),
            lines_of(*old(space), start, end),
        ensures
            final(space).wf(),
            *final(space) == (ImmixSpace { field_unlog: final(space).field_unlog, ..*old(space) }),
            final(space).field_unlog@ == filled(
                old(space).field_unlog@,
                old(space).word(start@),
                old(space).word(end@),
                0,
            ),
    {
        let first: usize = (start.0.0 - space.common.start) / 8;
        let last: usize = (end.0.0 - space.common.start) / 8;
        space.field_unlog.fill(first, last, 0);
    }

    /// Sets the field log entries of the lines from `start` up to `end` to unlogged.
    pub fn initialize_field_unlog_table_as_unlogged(
        space: &mut ImmixSpace,
        start: Line,
        end: Line,
    )
        requires
            old(space).wf(),
            lines_of(*old(space), start, end),
        ensures
            final(space).wf(),
            *final(space) == (ImmixSpace { field_unlog: final(space).field_unlog, ..*old(space) }),
            final(space).field_unlog@ == filled(
                old(space).field_unlog@,
                old(space).word(start@),
                old(space).word(end@),
                1,
            ),
    {
        let first: usize = (start.0.0 - space.common.start) / 8;
        let last: usize = (end.0.0 - space.common.start) / 8;
        space.field_unlog.fill(first, last, 1);
    }

    /// Marks everything on the lines from `start` up to `end`.
    pub fn initialize_mark_table_as_marked(space: &mut ImmixSpace, start: Line, end: Line)
        requires
            old(space).wf(),
            lines_of(*old(space), start, end),
        ensures
            final(space).wf(),
            *final(space) == (ImmixSpace { mark: final(space).mark, ..*old(space) }),
            final(space).mark@ == filled(
                old(space).mark@,
                old(space).granule(start@),
                old(space).granule(end@),
                MARKED_STATE,
            ),
    {
        let first: usize = (start.0.0 - space.common.start) / 16;
        let last: usize = (end.0.0 - space.common.start) / 16;
        space.mark.fill(first, last, MARKED_STATE);
    }

    /// Adds one to the reuse count of each line from `start` up to `end`.
    pub fn inc_reuse_counts(space: &mut ImmixSpace, start: Line, end: Line)
        requires
            old(space).wf(),
            lines_of(*old(space), start, end),
        ensures
            final(space).wf(),
            *final(space) == (ImmixSpace {
                line_reuse_counts: final(space).line_reuse_counts,
                ..*old(space)
            }),
            final(space).line_reuse_counts@ == incremented(
                old(space).line_reuse_counts@,
                old(space).line_index(start@),
                old(space).line_index(end@),
            ),
    {
        let first: usize = (start.0.0 - space.common.start) / 256;
        let last: usize = (end.0.0 - space.common.start) / 256;
        let mut i: usize = first;
        while i < last
            invariant
                space.wf(),
                first <= i <= last <= space.line_reuse_counts@.len(),
                *space == (ImmixSpace {
                    line_reuse_counts: space.line_reuse_counts,
                    ..*old(space)
                }),
                space.line_reuse_counts@ == incremented(
                    old(space).line_reuse_counts@,
                    first as int,
                    i as int,
                ),
            decreases last - i,
        {
            let count: u8 = space.line_reuse_counts.load(i);
            space.line_reuse_counts.store(i, count.wrapping_add(1));
            i += 1;
        }
    }
}

} // verus!
