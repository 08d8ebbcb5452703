//! Lines, the unit in which a block is reused.
use crate::policy::immix::block::{block_of, Block};
use crate::util::address::{Address, ObjectReference};
use vstd::prelude::*;

verus! {

/// A line, named by its first address. Its view is that address.
#[derive(Copy, Clone, PartialEq, Eq, Structural, Debug)]
pub struct Line(pub Address);

impl View for Line {
    type V = int;

    open spec fn view(&self) -> int {
        self.0@
    }
}

impl Line {
    pub const BYTES: usize = 256;

    pub const LOG_BYTES: usize = 8;

    /// A line starts at a multiple of its size.
    pub open spec fn wf(&self) -> bool {
        self@ % 256 == 0
    }

    /// The position of the line in its block.
    pub open spec fn index_in_block(&self) -> int {
        (self@ % 32768) / 256
    }

    /// The line that holds the start of `object`.
    pub fn containing(object: ObjectReference) -> (line: Line)
        ensures
            line.wf(),
            line@ == object@ - object@ % 256,
    {
        Line(Address(object.0 - object.0 % 256))
    }

    pub fn from_aligned_address(address: Address) -> (line: Line)
        requires
            address@ % 256 == 0,
        ensures
            line.wf(),
            line@ == address@,
    {
        Line(address)
    }

    pub fn start(&self) -> (a: Address)
        ensures
            a@ == self@,
    {
        self.0
    }

    /// The block that the line is part of.
    pub fn block(&self) -> (block: Block)
        ensures
            block.wf(),
            block == block_of(self@),
    {
        Block(Address(self.0.0 - self.0.0 % 32768))
    }

    pub fn get_index_within_block(&self) -> (i: usize)
        requires
            self.wf(),
        ensures
            i == self.index_in_block(),
            i < 128,
    {
        (self.0.0 % 32768) / 256
    }

    /// The line `n` lines further on.
    pub fn next_nth(&self, n: usize) -> (line: Line)
        requires
            self.wf(),
            self@ + n * 256 <= usize::MAX,
        ensures
            line.wf(),
            line@ == self@ + n * 256,
    {
        Line(Address(self.0.0 + n * 256))
    }

    pub fn next(&self) -> (line: Line)
        requires
            self.wf(),
            self@ + 256 <= usize::MAX,
        ensures
            line.wf(),
            line@ == self@ + 256,
    {
        self.next_nth(1)
    }

    /// How many lines there are from `start` up to `end`; none if `end` comes first.
    pub fn steps_between(start: &Line, end: &Line) -> (steps: Option<usize>)
        requires
            start.wf(),
            end.wf(),
        ensures
            end@ < start@ ==> steps is None,
            start@ <= end@ ==> steps == Some(((end@ - start@) / 256) as usize),
    {
        if end.0.0 < start.0.0 {
            None
        } else {
            Some((end.0.0 - start.0.0) / 256)
        }
    }
}

} // verus!
