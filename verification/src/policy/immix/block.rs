//! Blocks and their states.
use crate::policy::immix::line::Line;
use crate::util::address::{Address, ObjectReference};
use vstd::prelude::*;

verus! {

/// What a block is in use for.
#[derive(Copy, Clone, PartialEq, Eq, Structural, Debug)]
pub enum BlockState {
    /// Not handed out.
    Unallocated,
    /// Handed out, and not marked in the current collection.
    Unmarked,
    /// Handed out, and marked in the current collection.
    Marked,
    /// Handed out clean to a mutator since the last collection.
    Nursery,
    /// A mutator is filling the holes of the block.
    Reusing,
    /// The block has holes that a mutator may fill.
    Reusable { unavailable_lines: u8 },
}

impl BlockState {
    pub open spec fn reusable(&self) -> bool {
        self is Reusable
    }

    pub fn is_reusable(&self) -> (b: bool)
        ensures
            b == self.reusable(),
    {
        match self {
            BlockState::Reusable { unavailable_lines: _ } => true,
            _ => false,
        }
    }
}

/// A block, named by its first address. Its view is that address.
#[derive(Copy, Clone, PartialEq, Eq, Structural, Debug)]
pub struct Block(pub Address);

/// The block that `address` lies in.
pub open spec fn block_of(address: int) -> Block {
    Block(Address((address - address % 32768) as usize))
}

impl View for Block {
    type V = int;

    open spec fn view(&self) -> int {
        self.0@
    }
}

impl Block {
    pub const BYTES: usize = 32768;

    pub const LOG_BYTES: usize = 15;

    /// Lines in a block.
    pub const LINES: usize = 128;

    /// Pages in a block.
    pub const PAGES: usize = 8;

    /// A block starts at a multiple of its size.
    pub open spec fn wf(&self) -> bool {
        self@ % 32768 == 0
    }

    /// The block that holds the start of `object`.
    pub fn containing(object: ObjectReference) -> (block: Block)
        ensures
            block.wf(),
            block == block_of(object@),
    {
        Block(Address(object.0 - object.0 % 32768))
    }

    pub fn from_unaligned_address(address: Address) -> (block: Block)
        ensures
            block.wf(),
            block@ == address@ - address@ % 32768,
    {
        Block(Address(address.0 - address.0 % 32768))
    }

    pub fn start(&self) -> (a: Address)
        ensures
            a@ == self@,
    {
        self.0
    }

    pub fn end(&self) -> (a: Address)
        requires
            self@ + 32768 <= usize::MAX,
        ensures
            a@ == self@ + 32768,
    {
        Address(self.0.0 + 32768)
    }

    /// The first line of the block.
    pub fn first_line(&self) -> (line: Line)
        requires
            self.wf(),
        ensures
            line.wf(),
            line@ == self@,
            line.index_in_block() == 0,
    {
        Line(self.0)
    }
}

} // verus!
