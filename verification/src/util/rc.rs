//! Reference counts, one for each granule of a range of memory, and the lines that an object
//! covers without starting on them.
use crate::policy::immix::line::Line;
use crate::util::address::ObjectReference;
use crate::util::metadata::side_metadata::{filled, SideTable};
use vstd::prelude::*;

verus! {

/// Bytes in a granule: no object is smaller, and each granule has a count of its own.
pub const MIN_OBJECT_SIZE: usize = 16;

/// Whether every count of line `line` of a count table is zero.
pub open spec fn line_dead(counts: Seq<u8>, line: int) -> bool {
    forall|g: int| #![trigger counts[g]] line * 16 <= g < line * 16 + 16 ==> counts[g] == 0
}

/// The counts after an object that covers the lines strictly between `first` and `last` whole has
/// been recorded: the first granule of each such line has count one.
pub open spec fn straddle_counts(counts: Seq<u8>, first: int, last: int) -> Seq<u8> {
    Seq::new(
        counts.len(),
        |g: int|
            if g % 16 == 0 && first < g / 16 < last {
                1
            } else {
                counts[g]
            },
    )
}

/// The reference counts of the objects in the memory from `start` on.
pub struct RefCountHelper {
    pub start: usize,
    /// One count per granule.
    pub counts: SideTable,
    /// One entry per line; not zero where an object that started earlier covers the line.
    pub straddle: SideTable,
    /// How many increments are buffered and not applied yet.
    pub inc_buffer_size: usize,
}

impl RefCountHelper {
    pub open spec fn wf(&self) -> bool {
        &&& self.start % 256 == 0
        &&& self.counts@.len() == self.straddle@.len() * 16
        &&& self.start + self.counts@.len() * 16 <= usize::MAX
    }

    /// Whether the counts of this helper are about the memory at `address`.
    pub open spec fn covers(&self, address: int) -> bool {
        self.start <= address < self.start + self.counts@.len() * 16
    }

    pub open spec fn granule(&self, address: int) -> int {
        (address - self.start) / 16
    }

    pub open spec fn line(&self, address: int) -> int {
        (address - self.start) / 256
    }

    /// The count of the object at `object`.
    pub open spec fn count_of(&self, object: ObjectReference) -> u8 {
        self.counts@[self.granule(object@)]
    }

    /// Counts for `lines` lines of memory from `start` on, all zero.
    pub fn new(start: usize, lines: usize) -> (rc: Self)
        requires
            start % 256 == 0,
            start + lines * 256 <= usize::MAX,
        ensures
            rc.wf(),
            rc.start == start,
            rc.counts@ == Seq::new((lines * 16) as nat, |i: int| 0u8),
            rc.straddle@ == Seq::new(lines as nat, |i: int| 0u8),
            rc.inc_buffer_size == 0,
    {
        RefCountHelper {
            start,
            counts: SideTable::new(lines * 16),
            straddle: SideTable::new(lines),
            inc_buffer_size: 0,
        }
    }

    pub fn count(&self, object: ObjectReference) -> (c: u8)
        requires
            self.wf(),
            self.covers(object@),
        ensures
            c == self.count_of(object),
    {
        self.counts.load((object.0 - self.start) / 16)
    }

    pub fn set(&mut self, object: ObjectReference, count: u8)
        requires
            old(self).wf(),
            old(self).covers(object@),
        ensures
            final(self).wf(),
            *final(self) == (RefCountHelper { counts: final(self).counts, ..*old(self) }),
            final(self).counts@ == old(self).counts@.update(old(self).granule(object@), count),
    {
        self.counts.store((object.0 - self.start) / 16, count);
    }

    pub fn is_straddle_line(&self, line: Line) -> (b: bool)
        requires
            self.wf(),
            line.wf(),
            self.covers(line@),
        ensures
            b == (self.straddle@[self.line(line@)] != 0),
    {
        self.straddle.load((line.0.0 - self.start) / 256) != 0
    }

    /// Whether no object on the line with index `line` has a count.
    pub fn is_line_dead(&self, line: usize) -> (b: bool)
        requires
            self.wf(),
            line < self.straddle@.len(),
        ensures
            b == line_dead(self.counts@, line as int),
    {
        let first: usize = line * 16;
        let mut g: usize = first;
        while g < first + 16
            invariant
                self.wf(),
                line < self.straddle@.len(),
                first == line * 16,
                first <= g <= first + 16,
                forall|h: int| #![trigger self.counts@[h]] first <= h < g ==> self.counts@[h] == 0,
            decreases first + 16 - g,
        {
            if self.counts.load(g) != 0 {
                return false;
            }
            g += 1;
        }
        true
    }

    /// Records that `object`, of `size` bytes, covers more than the line it starts on. The lines
    /// that it covers from start to end are marked; the line it ends on is not.
    pub fn mark_straddle_object_with_size(&mut self, object: ObjectReference, size: usize)
        requires
            old(self).wf(),
            size > Line::BYTES,
            old(self).covers(object@),
            object@ + size <= old(self).start + old(self).counts@.len() * 16,
        ensures
            final(self).wf(),
            *final(self) == (RefCountHelper {
                counts: final(self).counts,
                straddle: final(self).straddle,
                ..*old(self)
            }),
            final(self).counts@ == straddle_counts(
                old(self).counts@,
                old(self).line(object@),
                old(self).line(object@ + size),
            ),
            final(self).straddle@ == filled(
                old(self).straddle@,
                old(self).line(object@) + 1,
                old(self).line(object@ + size),
                1,
            ),
    {
        let first: usize = (object.0 - self.start) / 256;
        let last: usize = (object.0 + size - self.start) / 256;
        let mut line: usize = first + 1;
        while line < last
            invariant
                self.wf(),
                first < line <= last,
                last <= self.straddle@.len(),
                *self == (RefCountHelper { counts: self.counts, straddle: self.straddle, ..*old(self) }),
                self.counts@ == straddle_counts(old(self).counts@, first as int, line as int),
                self.straddle@ == filled(old(self).straddle@, first + 1, line as int, 1),
            decreases last - line,
        {
            self.straddle.store(line, 1);
            self.counts.store(line * 16, 1);
            line += 1;
        }
    }

    pub fn reset_inc_buffer_size(&mut self)
        ensures
            *final(self) == (RefCountHelper { inc_buffer_size: 0, ..*old(self) }),
    {
        self.inc_buffer_size = 0;
    }
}

} // verus!
