//! Which chunks of a space hold something.
use vstd::prelude::*;

verus! {

/// One flag per chunk. Its view is the sequence of the flags.
pub struct ChunkMap {
    pub allocated: Vec<bool>,
}

impl View for ChunkMap {
    type V = Seq<bool>;

    open spec fn view(&self) -> Seq<bool> {
        self.allocated@
    }
}

impl ChunkMap {
    /// A map of `chunks` chunks, none of which holds anything.
    pub fn new(chunks: usize) -> (m: Self)
        ensures
            m@ == Seq::new(chunks as nat, |i: int| false),
    {
        let mut allocated: Vec<bool> = Vec::new();
        let mut i: usize = 0;
        while i < chunks
            invariant
                i <= chunks,
                allocated@ == Seq::new(i as nat, |j: int| false),
            decreases chunks - i,
        {
            allocated.push(false);
            i += 1;
        }
        ChunkMap { allocated }
    }

    pub fn set_allocated(&mut self, chunk: usize, allocated: bool)
        requires
            chunk < old(self)@.len(),
        ensures
            final(self)@ == old(self)@.update(chunk as int, allocated),
    {
        self.allocated.set(chunk, allocated);
    }
}

} // verus!
