//! Tables that hold one small value for each unit of memory in a range: a granule, a word, a
//! line, a block or a page.
use vstd::prelude::*;

verus! {

/// The tables that a space registers beside those every space has.
#[derive(Copy, Clone, PartialEq, Eq, Structural, Debug)]
pub enum SideMetadataSpec {
    /// One entry per line: an object that started on an earlier line covers it.
    RcStraddleLines,
    /// One entry per block: the block has been logged.
    BlockLog,
    /// One entry per block: its survivors were promoted where they are.
    NurseryPromotionState,
    /// One entry per line: how often the line was handed out during marking.
    LineReuseCount,
    /// One entry per page: how often a large object was placed on it during marking.
    LosPageReuseCount,
    /// One entry per granule: the mark of the object there.
    LocalMarkBit,
}

/// The sequence `s` with `value` written over the positions from `lo` up to `hi`.
pub open spec fn filled<T>(s: Seq<T>, lo: int, hi: int, value: T) -> Seq<T> {
    Seq::new(s.len(), |i: int| if lo <= i < hi { value } else { s[i] })
}

/// A table of bytes. Its view is the sequence of its entries.
pub struct SideTable {
    pub entries: Vec<u8>,
}

impl View for SideTable {
    type V = Seq<u8>;

    open spec fn view(&self) -> Seq<u8> {
        self.entries@
    }
}

impl SideTable {
    /// A table of `len` zeroes.
    pub fn new(len: usize) -> (t: Self)
        ensures
            t@ == Seq::new(len as nat, |i: int| 0u8),
    {
        let mut entries: Vec<u8> = Vec::new();
        let mut i: usize = 0;
        while i < len
            invariant
                i <= len,
                entries@ == Seq::new(i as nat, |j: int| 0u8),
            decreases len - i,
        {
            entries.push(0);
            i += 1;
        }
        SideTable { entries }
    }

    pub fn load(&self, i: usize) -> (v: u8)
        requires
            i < self@.len(),
        ensures
            v == self@[i as int],
    {
        self.entries[i]
    }

    pub fn store(&mut self, i: usize, value: u8)
        requires
            i < old(self)@.len(),
        ensures
            final(self)@ == old(self)@.update(i as int, value),
    {
        self.entries.set(i, value);
    }

    /// Writes `value` over the entries from `lo` up to `hi`.
    pub fn fill(&mut self, lo: usize, hi: usize, value: u8)
        requires
            lo <= hi <= old(self)@.len(),
        ensures
            final(self)@ == filled(old(self)@, lo as int, hi as int, value),
    {
        let mut i: usize = lo;
        while i < hi
            invariant
                lo <= i <= hi <= self@.len(),
                self@ == filled(old(self)@, lo as int, i as int, value),
            decreases hi - i,
        {
            self.entries.set(i, value);
            i += 1;
        }
    }

    /// Writes `new` where the entry is `current`, and says what the entry was: `Ok` where it was
    /// replaced, `Err` where it was left.
    pub fn compare_exchange(&mut self, i: usize, current: u8, new: u8) -> (r: Result<u8, u8>)
        requires
            i < old(self)@.len(),
        ensures
            old(self)@[i as int] == current ==> r == Ok::<u8, u8>(current) && final(self)@
                == old(self)@.update(i as int, new),
            old(self)@[i as int] != current ==> r == Err::<u8, u8>(old(self)@[i as int])
                && final(self)@ == old(self)@,
    {
        let found: u8 = self.entries[i];
        if found == current {
            self.entries.set(i, new);
            Ok(found)
        } else {
            Err(found)
        }
    }
}

} // verus!
