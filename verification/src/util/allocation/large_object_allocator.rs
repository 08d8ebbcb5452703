//! The allocator for large objects.
use crate::policy::largeobjectspace::LargeObjectSpace;
use crate::policy::lxr::largeobjectspace::{pages_allocated, LXRLargeObjectSpace};
use crate::util::address::Address;
use crate::util::allocation::allocator::{
    align_allocation, alignable, aligned, get_maximum_aligned_size, lemma_aligned,
    maximum_aligned_size, AllocatorContext,
};
use crate::util::conversions::{bytes_to_pages_up, pages_up};
use crate::vm::binding::VMBinding;
use std::marker::PhantomData;
use vstd::prelude::*;

verus! {

/// A space that a large object allocator can take pages from.
pub trait LargeObjectSpaceExt: Sized {
    /// The pages and tables of the space.
    spec fn los(&self) -> LargeObjectSpace;

    /// The space with other pages and tables.
    spec fn with_los(self, los: LargeObjectSpace) -> Self;

    spec fn space_wf(&self) -> bool;

    fn allocate_pages(&mut self, pages: usize) -> (start: Address)
        requires
            old(self).space_wf(),
            old(self).los().wf(),
            pages > 0,
        ensures
            final(self).space_wf(),
            final(self).los().wf(),
            *final(self) == old(self).with_los(final(self).los()),
            pages_allocated(old(self).los(), pages as int, final(self).los(), start),
    ;
}

impl LargeObjectSpaceExt for LargeObjectSpace {
    open spec fn los(&self) -> LargeObjectSpace {
        *self
    }

    open spec fn with_los(self, los: LargeObjectSpace) -> Self {
        los
    }

    open spec fn space_wf(&self) -> bool {
        self.wf()
    }

    fn allocate_pages(&mut self, pages: usize) -> (start: Address) {
        LargeObjectSpace::allocate_pages(self, pages)
    }
}

impl LargeObjectSpaceExt for LXRLargeObjectSpace {
    open spec fn los(&self) -> LargeObjectSpace {
        self.los
    }

    open spec fn with_los(self, los: LargeObjectSpace) -> Self {
        LXRLargeObjectSpace { los, ..self }
    }

    open spec fn space_wf(&self) -> bool {
        self.wf()
    }

    fn allocate_pages(&mut self, pages: usize) -> (start: Address) {
        LXRLargeObjectSpace::allocate_pages(self, pages)
    }
}

/// The kinds of space that an allocator can be bound to.
#[derive(Copy, Clone, PartialEq, Eq, Structural, Debug)]
pub enum SpaceKind {
    Immix,
    LargeObject,
    LXRLargeObject,
    Immortal,
}

/// An allocator that gives every object whole pages.
pub struct LargeObjectAllocator<VM: VMBinding> {
    /// The thread that the allocator belongs to.
    pub tls: usize,
    /// The kind of space that it takes pages from.
    pub space: SpaceKind,
    pub context: AllocatorContext,
    pub vm: PhantomData<VM>,
}

/// Whether at most the pages and tables of the space have changed.
pub open spec fn only_los_changed<S: LargeObjectSpaceExt>(before: S, after: S) -> bool {
    after == before || after == before.with_los(after.los())
}

/// The pages that an object of `size` bytes, aligned by `align`, is given.
pub open spec fn object_pages<VM: VMBinding>(size: int, align: int) -> int {
    pages_up(maximum_aligned_size::<VM>(size, align))
}

/// What a request for `pages` pages makes of the space: nothing where it is more than the heap can
/// ever have.
pub open spec fn pages_requested(
    before: LargeObjectSpace,
    pages: int,
    max_heap_pages: int,
    after: LargeObjectSpace,
    start: Address,
) -> bool {
    if pages > max_heap_pages {
        start@ == 0 && after == before
    } else {
        pages_allocated(before, pages, after, start)
    }
}

/// What allocating a large object makes of the space, and where the object is: on pages of its own,
/// aligned, or nowhere. The pages have room for it where they start at a multiple of the least
/// alignment and the offset is one.
pub open spec fn large_object_allocated<VM: VMBinding>(
    before: LargeObjectSpace,
    max_heap_pages: int,
    size: int,
    align: int,
    offset: int,
    after: LargeObjectSpace,
    a: Address,
) -> bool {
    let pages = object_pages::<VM>(size, align);
    exists|start: Address|
        {
            &&& #[trigger] pages_requested(before, pages, max_heap_pages, after, start)
            &&& start@ == 0 ==> a@ == 0
            &&& start@ != 0 ==> {
                &&& a@ == aligned(start@, align, offset)
                &&& (a@ + offset) % align == 0
                &&& start@ <= a@
                &&& 4096int % VM::MIN_ALIGNMENT as int == 0 && offset % VM::MIN_ALIGNMENT as int
                    == 0 ==> a@ + size <= start@ + pages * 4096
            }
        }
}

/// Whether `after` is `before`, having noted whether a request for `pages` pages is hopeless.
pub open spec fn oom_noted(
    before: AllocatorContext,
    pages: int,
    after: AllocatorContext,
) -> bool {
    after == (AllocatorContext {
        out_of_memory: before.out_of_memory || pages > before.max_heap_pages,
        ..before
    })
}

impl<VM: VMBinding> LargeObjectAllocator<VM> {
    /// An allocator of the thread `tls` for a large object space.
    pub fn new(tls: usize, space: SpaceKind, context: AllocatorContext) -> (a: Self)
        requires
            space == SpaceKind::LargeObject || space == SpaceKind::LXRLargeObject,
        ensures
            a.tls == tls,
            a.space == space,
            a.context == context,
    {
        LargeObjectAllocator { tls, space, context, vm: PhantomData }
    }

    pub fn get_tls(&self) -> (tls: usize)
        ensures
            tls == self.tls,
    {
        self.tls
    }

    pub fn get_context(&self) -> (context: &AllocatorContext)
        ensures
            *context == self.context,
    {
        &self.context
    }

    pub fn get_space(&self) -> (space: SpaceKind)
        ensures
            space == self.space,
    {
        self.space
    }

    /// Whether allocation mostly goes without looking at the space: it never does.
    pub fn does_thread_local_allocation(&self) -> (b: bool)
        ensures
            !b,
    {
        false
    }

    /// Allocates `size` bytes so that the address `offset` bytes on is a multiple of `align`.
    /// Returns the zero address if there is no room.
    pub fn allocate<S: LargeObjectSpaceExt>(
        &mut self,
        space: &mut S,
        size: usize,
        align: usize,
        offset: usize,
    ) -> (a: Address)
        requires
            old(space).space_wf(),
            old(space).los().wf(),
            object_pages::<VM>(size as int, align as int) > 0,
            maximum_aligned_size::<VM>(size as int, align as int) <= usize::MAX,
            alignable::<VM>(align as int),
            old(space).los().common.start + old(space).los().pages() * 4096 + align <= usize::MAX,
        ensures
            final(space).space_wf(),
            final(space).los().wf(),
            only_los_changed(*old(space), *final(space)),
            *final(self) == (LargeObjectAllocator { context: final(self).context, ..*old(self) }),
            oom_noted(
                old(self).context,
                object_pages::<VM>(size as int, align as int),
                final(self).context,
            ),
            large_object_allocated::<VM>(
                old(space).los(),
                old(self).context.max_heap_pages as int,
                size as int,
                align as int,
                offset as int,
                final(space).los(),
                a,
            ),
    {
        let ghost before = space.los();
        let cell = self.alloc_slow_once(space, size, align, offset);
        if !cell.is_zero() {
            proof {
                let p = before.page(cell@);
                let m = VM::MIN_ALIGNMENT as int;
                assert(cell@ % 4096 == 0);
                if 4096int % m == 0 {
                    // A page is a multiple of the least alignment.
                    vstd::arithmetic::div_mod::lemma_fundamental_div_mod(4096int, m);
                    vstd::arithmetic::div_mod::lemma_mod_mod(cell@, m, 4096int / m);
                    vstd::arithmetic::div_mod::lemma_small_mod(0, m as nat);
                    assert(cell@ % m == 0);
                }
                lemma_aligned(cell@, align as int, offset as int);
            }
            let a = align_allocation::<VM>(cell, align, offset);
            assert(pages_requested(
                before,
                object_pages::<VM>(size as int, align as int),
                old(self).context.max_heap_pages as int,
                space.los(),
                cell,
            ));
            a
        } else {
            cell
        }
    }

    /// Takes the pages for an object of `size` bytes. Returns the zero address if there are not so
    /// many in a row, or if the request is more than the heap can ever have.
    pub fn alloc_slow_once<S: LargeObjectSpaceExt>(
        &mut self,
        space: &mut S,
        size: usize,
        align: usize,
        _offset: usize,
    ) -> (start: Address)
        requires
            old(space).space_wf(),
            old(space).los().wf(),
            object_pages::<VM>(size as int, align as int) > 0,
            maximum_aligned_size::<VM>(size as int, align as int) <= usize::MAX,
        ensures
            final(space).space_wf(),
            final(space).los().wf(),
            only_los_changed(*old(space), *final(space)),
            *final(self) == (LargeObjectAllocator { context: final(self).context, ..*old(self) }),
            oom_noted(
                old(self).context,
                object_pages::<VM>(size as int, align as int),
                final(self).context,
            ),
            pages_requested(
                old(space).los(),
                object_pages::<VM>(size as int, align as int),
                old(self).context.max_heap_pages as int,
                final(space).los(),
                start,
            ),
    {
        let maxbytes: usize = get_maximum_aligned_size::<VM>(size, align);
        let pages: usize = bytes_to_pages_up(maxbytes);
        if self.context.handle_obvious_oom_request(pages) {
            return Address::zero();
        }
        space.allocate_pages(pages)
    }
}

} // verus!
