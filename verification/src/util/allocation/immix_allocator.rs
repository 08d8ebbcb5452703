//! The allocator for ordinary objects.
use crate::policy::lxr::immixspace::{clean_block_taken, ImmixHooks, LXRSpace};
use crate::util::address::Address;
use crate::util::allocation::allocator::{
    align_allocation, alignable, aligned, lemma_aligned, AllocatorContext,
};
use crate::vm::binding::VMBinding;
use std::marker::PhantomData;
use vstd::prelude::*;

verus! {

/// An allocator that hands out the memory of a block from its start to its end.
pub struct ImmixAllocator<VM: VMBinding> {
    /// The thread that the allocator belongs to.
    pub tls: usize,
    pub context: AllocatorContext,
    /// Where the memory not handed out yet begins.
    pub cursor: Address,
    /// Where it ends.
    pub limit: Address,
    /// Whether it is copies that are allocated.
    pub copy: bool,
    pub vm: PhantomData<VM>,
}

/// Whether `size` bytes, aligned, fit between `cursor` and `limit`.
pub open spec fn fits(cursor: int, limit: int, size: int, align: int, offset: int) -> bool {
    aligned(cursor, align, offset) + size <= limit
}

/// What allocating an object makes of an allocator and its space, and where the object is: in the
/// memory at hand if it fits, and otherwise in a clean block if there is one.
pub open spec fn immix_allocated<VM: VMBinding, H: ImmixHooks>(
    before: ImmixAllocator<VM>,
    space_before: LXRSpace<H>,
    size: int,
    align: int,
    offset: int,
    after: ImmixAllocator<VM>,
    space_after: LXRSpace<H>,
    a: Address,
) -> bool {
    let fit = fits(before.cursor@, before.limit@, size, align, offset);
    &&& after == (ImmixAllocator { cursor: after.cursor, limit: after.limit, ..before })
    &&& a@ == 0 <==> !fit && space_before.immix.pr.free@.len() == 0
    &&& a@ == 0 ==> after == before
    &&& a@ != 0 ==> {
        &&& (a@ + offset) % align == 0
        &&& after.cursor@ == a@ + size
        &&& after.cursor@ <= after.limit@
    }
    &&& fit || a@ == 0 ==> space_after == space_before
    &&& fit ==> a@ == aligned(before.cursor@, align, offset) && after.limit == before.limit
    &&& !fit && a@ != 0 ==> {
        let block = space_before.immix.pr.free@.last();
        &&& clean_block_taken(space_before, before.copy, block, space_after)
        &&& a@ == aligned(block@, align, offset)
        &&& after.limit@ == block@ + 32768
    }
}

impl<VM: VMBinding> ImmixAllocator<VM> {
    /// The memory not handed out yet is memory of `space`, or there is none.
    pub open spec fn wf<H>(&self, space: LXRSpace<H>) -> bool {
        &&& self.cursor@ <= self.limit@
        &&& self.limit@ == 0 || space.immix.common.start <= self.cursor@
        &&& self.limit@ <= space.immix.common.start + space.immix.blocks() * 32768
    }

    /// An allocator of the thread `tls` that has no memory yet.
    pub fn new(tls: usize, context: AllocatorContext, copy: bool) -> (a: Self)
        ensures
            a.tls == tls,
            a.context == context,
            a.cursor@ == 0,
            a.limit@ == 0,
            a.copy == copy,
    {
        ImmixAllocator {
            tls,
            context,
            cursor: Address::zero(),
            limit: Address::zero(),
            copy,
            vm: PhantomData,
        }
    }

    /// Lets go of the memory not handed out yet.
    pub fn reset(&mut self)
        ensures
            *final(self) == (ImmixAllocator {
                cursor: Address(0),
                limit: Address(0),
                ..*old(self)
            }),
    {
        self.cursor = Address::zero();
        self.limit = Address::zero();
    }

    /// Allocates `size` bytes so that the address `offset` bytes on is a multiple of `align`. Where
    /// the memory at hand does not do, a clean block is taken. Returns the zero address if there is
    /// none.
    pub fn allocate<H: ImmixHooks>(
        &mut self,
        space: &mut LXRSpace<H>,
        size: usize,
        align: usize,
        offset: usize,
    ) -> (a: Address)
        requires
            old(space).wf(),
            old(self).wf(*old(space)),
            old(space).immix.common.start > 0,
            old(space).immix.common.start + old(space).immix.blocks() * 32768 + VM::MAX_ALIGNMENT
                <= usize::MAX,
            0 < size,
            size + align <= 32768,
            alignable::<VM>(align as int),
        ensures
            final(space).wf(),
            final(self).wf(*final(space)),
            immix_allocated(
                *old(self),
                *old(space),
                size as int,
                align as int,
                offset as int,
                *final(self),
                *final(space),
                a,
            ),
    {
        proof {
            lemma_aligned(self.cursor@, align as int, offset as int);
        }
        let result = align_allocation::<VM>(self.cursor, align, offset);
        if result.0 <= self.limit.0 && size <= self.limit.0 - result.0 {
            self.cursor = Address(result.0 + size);
            return result;
        }
        let block = match space.get_clean_block(self.copy) {
            Some(block) => block,
            None => return Address::zero(),
        };
        proof {
            old(space).immix.lemma_block_of(block@);
        }
        self.cursor = block.start();
        self.limit = block.end();
        proof {
            lemma_aligned(self.cursor@, align as int, offset as int);
        }
        let result = align_allocation::<VM>(self.cursor, align, offset);
        self.cursor = Address(result.0 + size);
        result
    }
}

} // verus!
