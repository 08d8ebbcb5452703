//! Heap addresses and references to objects.
use vstd::prelude::*;

verus! {

/// An address in the heap. Its view is the address as a number.
#[derive(Copy, Clone, PartialEq, Eq, Structural, Debug, Hash)]
pub struct Address(pub usize);

impl View for Address {
    type V = int;

    open spec fn view(&self) -> int {
        self.0 as int
    }
}

impl Address {
    /// The address that no allocation ever has.
    pub fn zero() -> (a: Self)
        ensures
            a@ == 0,
    {
        Address(0)
    }

    pub fn is_zero(&self) -> (b: bool)
        ensures
            b == (self@ == 0),
    {
        self.0 == 0
    }

    pub fn as_usize(&self) -> (n: usize)
        ensures
            n == self@,
    {
        self.0
    }

    /// The address `bytes` further on.
    pub fn add_bytes(&self, bytes: usize) -> (a: Self)
        requires
            self@ + bytes <= usize::MAX,
        ensures
            a@ == self@ + bytes,
    {
        Address(self.0 + bytes)
    }

    /// Whether the address is a multiple of `align`.
    pub fn is_aligned_to(&self, align: usize) -> (b: bool)
        requires
            align > 0,
        ensures
            b == (self@ % align as int == 0),
    {
        self.0 % align == 0
    }

    /// The closest multiple of `align` at or below the address.
    pub fn align_down(&self, align: usize) -> (a: Self)
        requires
            align > 0,
        ensures
            a@ == self@ - self@ % align as int,
    {
        proof {
            vstd::arithmetic::div_mod::lemma_mod_decreases(self.0 as nat, align as nat);
        }
        Address(self.0 - self.0 % align)
    }

    /// The closest multiple of `align` at or above the address.
    pub fn align_up(&self, align: usize) -> (a: Self)
        requires
            align > 0,
            self@ + align <= usize::MAX,
        ensures
            a@ == align_up_spec(self@, align as int),
    {
        let rest: usize = self.0 % align;
        if rest == 0 {
            *self
        } else {
            Address(self.0 + (align - rest))
        }
    }
}

/// The closest multiple of `align` at or above `n`.
pub open spec fn align_up_spec(n: int, align: int) -> int {
    if n % align == 0 {
        n
    } else {
        n + (align - n % align)
    }
}

/// The address of an object, or the null reference. Its view is that address as a number.
#[derive(Copy, Clone, PartialEq, Eq, Structural, Debug, Hash)]
pub struct ObjectReference(pub usize);

impl View for ObjectReference {
    type V = int;

    open spec fn view(&self) -> int {
        self.0 as int
    }
}

impl ObjectReference {
    /// The reference to no object.
    pub fn null() -> (o: Self)
        ensures
            o@ == 0,
    {
        ObjectReference(0)
    }

    pub fn is_null(&self) -> (b: bool)
        ensures
            b == (self@ == 0),
    {
        self.0 == 0
    }

    pub fn to_raw_address(&self) -> (a: Address)
        ensures
            a@ == self@,
    {
        Address(self.0)
    }
}

} // verus!
