//! What the allocators have in common: alignment, and requests that cannot succeed.
use crate::util::address::Address;
use crate::vm::binding::VMBinding;
use vstd::prelude::*;

verus! {

/// The first address at or after `region` that lies `offset` bytes before a multiple of `align`.
pub open spec fn aligned(region: int, align: int, offset: int) -> int {
    let rest = (region + offset) % align;
    if rest == 0 {
        region
    } else {
        region + (align - rest)
    }
}

/// Whether `align` may be asked for.
pub open spec fn alignable<VM: VMBinding>(align: int) -> bool {
    &&& 0 < VM::MIN_ALIGNMENT <= align <= VM::MAX_ALIGNMENT
    &&& align % VM::MIN_ALIGNMENT as int == 0
}

/// The first address at or after `region` that lies `offset` bytes before a multiple of `align`.
pub fn align_allocation<VM: VMBinding>(region: Address, align: usize, offset: usize) -> (a: Address)
    requires
        alignable::<VM>(align as int),
        aligned(region@, align as int, offset as int) <= usize::MAX,
    ensures
        a@ == aligned(region@, align as int, offset as int),
        (a@ + offset) % align as int == 0,
        region@ <= a@ < region@ + align,
        region@ % VM::MIN_ALIGNMENT as int == 0 && offset % VM::MIN_ALIGNMENT == 0 ==> a@ <= region@
            + align - VM::MIN_ALIGNMENT,
{
    let r: usize = region.0 % align;
    let o: usize = offset % align;
    let rest: usize = if r < align - o {
        r + o
    } else {
        r - (align - o)
    };
    proof {
        if r < align - o {
            vstd::arithmetic::div_mod::lemma_small_mod((r + o) as nat, align as nat);
        } else {
            vstd::arithmetic::div_mod::lemma_small_mod(rest as nat, align as nat);
            vstd::arithmetic::div_mod::lemma_mod_add_multiples_vanish(rest as int, align as int);
        }
        assert((r + o) % align as int == rest);
        vstd::arithmetic::div_mod::lemma_add_mod_noop(region@, offset as int, align as int);
        lemma_aligned(region@, align as int, offset as int);
        if region@ % VM::MIN_ALIGNMENT as int == 0 && offset % VM::MIN_ALIGNMENT == 0 {
            lemma_aligned_distance(
                region@,
                align as int,
                offset as int,
                VM::MIN_ALIGNMENT as int,
            );
        }
    }
    if rest == 0 {
        region
    } else {
        Address(region.0 + (align - rest))
    }
}

/// An aligned address is where it should be.
pub proof fn lemma_aligned(region: int, align: int, offset: int)
    requires
        0 < align,
    ensures
        (aligned(region, align, offset) + offset) % align == 0,
        region <= aligned(region, align, offset) < region + align,
{
    let x = region + offset;
    let rest = x % align;
    vstd::arithmetic::div_mod::lemma_mod_bound(x, align);
    if rest != 0 {
        vstd::arithmetic::div_mod::lemma_fundamental_div_mod(x, align);
        let q = x / align;
        assert(x + (align - rest) == align * (q + 1)) by (nonlinear_arith)
            requires
                x == align * q + rest,
        ;
        vstd::arithmetic::div_mod::lemma_mod_multiples_basic(q + 1, align);
        assert((q + 1) * align == align * (q + 1)) by (nonlinear_arith);
    }
}

/// An aligned address is not too far on, where what is aligned is a multiple of the least
/// alignment.
proof fn lemma_aligned_distance(region: int, align: int, offset: int, min: int)
    requires
        0 < min <= align,
        align % min == 0,
        offset % min == 0,
        region % min == 0,
    ensures
        aligned(region, align, offset) <= region + align - min,
{
    let x = region + offset;
    let rest = x % align;
    vstd::arithmetic::div_mod::lemma_fundamental_div_mod(align, min);
    let k = align / min;
    assert(k > 0) by (nonlinear_arith)
        requires
            align == min * k,
            align > 0,
            min > 0,
    ;
    assert(x % min == 0) by {
        vstd::arithmetic::div_mod::lemma_add_mod_noop(region, offset, min);
        vstd::arithmetic::div_mod::lemma_small_mod(0, min as nat);
    }
    vstd::arithmetic::div_mod::lemma_mod_mod(x, min, k);
    vstd::arithmetic::div_mod::lemma_mod_bound(x, align);
    if rest != 0 && rest < min {
        vstd::arithmetic::div_mod::lemma_small_mod(rest as nat, min as nat);
    }
}

/// The most memory that an object of `size` bytes can need so that it can be aligned by `align`.
pub open spec fn maximum_aligned_size<VM: VMBinding>(size: int, align: int) -> int {
    if align <= VM::MIN_ALIGNMENT {
        size
    } else {
        size + align - VM::MIN_ALIGNMENT
    }
}

/// The most memory that an object of `size` bytes can need so that it can be aligned by `align`.
pub fn get_maximum_aligned_size<VM: VMBinding>(size: usize, align: usize) -> (bytes: usize)
    requires
        maximum_aligned_size::<VM>(size as int, align as int) <= usize::MAX,
    ensures
        bytes == maximum_aligned_size::<VM>(size as int, align as int),
{
    if align <= VM::MIN_ALIGNMENT {
        size
    } else {
        size + (align - VM::MIN_ALIGNMENT)
    }
}

/// What the allocators of a mutator share.
#[derive(Copy, Clone)]
pub struct AllocatorContext {
    /// The most pages that the heap can have.
    pub max_heap_pages: usize,
    /// The virtual machine has been told that a request can never succeed.
    pub out_of_memory: bool,
}

impl AllocatorContext {
    /// Whether `pages` pages are more than the heap can ever have. If so, the virtual machine is
    /// told.
    pub fn handle_obvious_oom_request(&mut self, pages: usize) -> (hopeless: bool)
        ensures
            hopeless == (pages > old(self).max_heap_pages),
            final(self).max_heap_pages == old(self).max_heap_pages,
            final(self).out_of_memory == (old(self).out_of_memory || hopeless),
    {
        if pages > self.max_heap_pages {
            self.out_of_memory = true;
            true
        } else {
            false
        }
    }
}

} // verus!
