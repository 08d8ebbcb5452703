//! The numbers that metadata consists of, and how they lie in memory.
use crate::util::address::Address;
use vstd::bytes::{
    lemma_auto_spec_u16_to_from_le_bytes, lemma_auto_spec_u32_to_from_le_bytes,
    lemma_auto_spec_u64_to_from_le_bytes, spec_u16_from_le_bytes, spec_u16_to_le_bytes,
    spec_u32_from_le_bytes, spec_u32_to_le_bytes, spec_u64_from_le_bytes, spec_u64_to_le_bytes,
    u16_from_le_bytes, u16_to_le_bytes, u32_from_le_bytes, u32_to_le_bytes, u64_from_le_bytes,
    u64_to_le_bytes,
};
use vstd::prelude::*;
use vstd::slice::slice_subrange;

verus! {

/// How many bits a number has, and the logarithm of that.
pub trait Bits {
    const BITS: u32;

    const LOG2: u32;
}

impl Bits for u8 {
    const BITS: u32 = 8;

    const LOG2: u32 = 3;
}

impl Bits for u16 {
    const BITS: u32 = 16;

    const LOG2: u32 = 4;
}

impl Bits for u32 {
    const BITS: u32 = 32;

    const LOG2: u32 = 5;
}

impl Bits for u64 {
    const BITS: u32 = 64;

    const LOG2: u32 = 6;
}

impl Bits for usize {
    const BITS: u32 = usize::BITS;

    const LOG2: u32 = usize::BITS / 32 + 4;
}

/// The operations on the bits of a number.
pub trait BitwiseOps: Sized {
    /// The bits that both numbers have.
    spec fn both(self, other: Self) -> Self;

    /// The bits that one of the numbers has.
    spec fn either(self, other: Self) -> Self;

    /// The bits that just one of the numbers has.
    spec fn just_one(self, other: Self) -> Self;

    /// The bits that the number does not have.
    spec fn others(self) -> Self;

    fn bitand(self, other: Self) -> (r: Self)
        ensures
            r == self.both(other),
    ;

    fn bitor(self, other: Self) -> (r: Self)
        ensures
            r == self.either(other),
    ;

    fn bitxor(self, other: Self) -> (r: Self)
        ensures
            r == self.just_one(other),
    ;

    fn inv(self) -> (r: Self)
        ensures
            r == self.others(),
    ;
}

impl BitwiseOps for u8 {
    open spec fn both(self, other: Self) -> Self {
        self & other
    }

    open spec fn either(self, other: Self) -> Self {
        self | other
    }

    open spec fn just_one(self, other: Self) -> Self {
        self ^ other
    }

    open spec fn others(self) -> Self {
        !self
    }

    fn bitand(self, other: Self) -> (r: Self) {
        self & other
    }

    fn bitor(self, other: Self) -> (r: Self) {
        self | other
    }

    fn bitxor(self, other: Self) -> (r: Self) {
        self ^ other
    }

    fn inv(self) -> (r: Self) {
        !self
    }
}

impl BitwiseOps for u16 {
    open spec fn both(self, other: Self) -> Self {
        self & other
    }

    open spec fn either(self, other: Self) -> Self {
        self | other
    }

    open spec fn just_one(self, other: Self) -> Self {
        self ^ other
    }

    open spec fn others(self) -> Self {
        !self
    }

    fn bitand(self, other: Self) -> (r: Self) {
        self & other
    }

    fn bitor(self, other: Self) -> (r: Self) {
        self | other
    }

    fn bitxor(self, other: Self) -> (r: Self) {
        self ^ other
    }

    fn inv(self) -> (r: Self) {
        !self
    }
}

impl BitwiseOps for u32 {
    open spec fn both(self, other: Self) -> Self {
        self & other
    }

    open spec fn either(self, other: Self) -> Self {
        self | other
    }

    open spec fn just_one(self, other: Self) -> Self {
        self ^ other
    }

    open spec fn others(self) -> Self {
        !self
    }

    fn bitand(self, other: Self) -> (r: Self) {
        self & other
    }

    fn bitor(self, other: Self) -> (r: Self) {
        self | other
    }

    fn bitxor(self, other: Self) -> (r: Self) {
        self ^ other
    }

    fn inv(self) -> (r: Self) {
        !self
    }
}

impl BitwiseOps for u64 {
    open spec fn both(self, other: Self) -> Self {
        self & other
    }

    open spec fn either(self, other: Self) -> Self {
        self | other
    }

    open spec fn just_one(self, other: Self) -> Self {
        self ^ other
    }

    open spec fn others(self) -> Self {
        !self
    }

    fn bitand(self, other: Self) -> (r: Self) {
        self & other
    }

    fn bitor(self, other: Self) -> (r: Self) {
        self | other
    }

    fn bitxor(self, other: Self) -> (r: Self) {
        self ^ other
    }

    fn inv(self) -> (r: Self) {
        !self
    }
}

impl BitwiseOps for usize {
    open spec fn both(self, other: Self) -> Self {
        self & other
    }

    open spec fn either(self, other: Self) -> Self {
        self | other
    }

    open spec fn just_one(self, other: Self) -> Self {
        self ^ other
    }

    open spec fn others(self) -> Self {
        !self
    }

    fn bitand(self, other: Self) -> (r: Self) {
        self & other
    }

    fn bitor(self, other: Self) -> (r: Self) {
        self | other
    }

    fn bitxor(self, other: Self) -> (r: Self) {
        self ^ other
    }

    fn inv(self) -> (r: Self) {
        !self
    }
}

/// How an access is ordered against those of other threads.
#[derive(Copy, Clone, PartialEq, Eq, Structural, Debug)]
pub enum MemoryOrder {
    Relaxed,
    Release,
    Acquire,
    AcqRel,
    SeqCst,
}

/// A range of memory. Its view is the sequence of its bytes.
pub struct MetadataMemory {
    pub start: usize,
    pub bytes: Vec<u8>,
}

impl View for MetadataMemory {
    type V = Seq<u8>;

    open spec fn view(&self) -> Seq<u8> {
        self.bytes@
    }
}

impl MetadataMemory {
    pub open spec fn wf(&self) -> bool {
        self.start + self@.len() <= usize::MAX
    }

    /// Whether there is a number of `width` bytes at `address`: it lies in the range, at a multiple
    /// of its width.
    pub open spec fn has(&self, address: Address, width: nat) -> bool {
        &&& self.start <= address@
        &&& address@ + width <= self.start + self@.len()
        &&& address@ % width as int == 0
    }

    /// The `width` bytes at `address`.
    pub open spec fn at(&self, address: Address, width: nat) -> Seq<u8> {
        self@.subrange(address@ - self.start, address@ - self.start + width)
    }

    /// A range of `len` zero bytes from `start` on.
    pub fn new(start: usize, len: usize) -> (m: Self)
        requires
            start + len <= usize::MAX,
        ensures
            m.wf(),
            m.start == start,
            m@ == Seq::new(len as nat, |i: int| 0u8),
    {
        let mut bytes: Vec<u8> = Vec::new();
        let mut i: usize = 0;
        while i < len
            invariant
                i <= len,
                bytes@ == Seq::new(i as nat, |j: int| 0u8),
            decreases len - i,
        {
            bytes.push(0);
            i += 1;
        }
        MetadataMemory { start, bytes }
    }

    /// Writes `bytes` at `address`.
    pub fn write(&mut self, address: Address, bytes: &Vec<u8>)
        requires
            old(self).wf(),
            old(self).start <= address@,
            address@ + bytes@.len() <= old(self).start + old(self)@.len(),
        ensures
            final(self).wf(),
            final(self).start == old(self).start,
            final(self)@ == overwritten(old(self)@, address@ - old(self).start, bytes@),
    {
        let at: usize = address.0 - self.start;
        let mut i: usize = 0;
        while i < bytes.len()
            invariant
                i <= bytes@.len(),
                at + bytes@.len() <= self@.len() <= usize::MAX,
                self.start == old(self).start,
                self@ == overwritten(old(self)@, at as int, bytes@.take(i as int)),
            decreases bytes@.len() - i,
        {
            self.bytes.set(at + i, bytes[i]);
            i += 1;
        }
        assert(bytes@.take(i as int) == bytes@);
    }
}

/// The sequence `s` with `bytes` written over it from position `at` on.
pub open spec fn overwritten(s: Seq<u8>, at: int, bytes: Seq<u8>) -> Seq<u8> {
    Seq::new(
        s.len(),
        |i: int|
            if at <= i < at + bytes.len() {
                bytes[i - at]
            } else {
                s[i]
            },
    )
}

/// A number that metadata can consist of. It is stored with its least byte first.
pub trait MetadataValue: Bits + BitwiseOps + Copy {
    /// How many bytes the number takes.
    spec fn width() -> nat;

    /// The bytes of the number.
    spec fn encoded(self) -> Seq<u8>;

    /// The sum, without what does not fit.
    spec fn plus(self, other: Self) -> Self;

    /// The difference, with what it lacks borrowed.
    spec fn minus(self, other: Self) -> Self;

    /// A number takes as many bytes as its width says, and no two have the same bytes.
    proof fn lemma_encoding()
        ensures
            Self::width() > 0,
            forall|v: Self| (#[trigger] v.encoded()).len() == Self::width(),
            forall|v: Self, w: Self| #[trigger] v.encoded() == #[trigger] w.encoded() ==> v == w,
    ;

    fn size() -> (n: usize)
        ensures
            n == Self::width(),
    ;

    fn to_bytes(self) -> (bytes: Vec<u8>)
        ensures
            bytes@ == self.encoded(),
    ;

    fn from_bytes(bytes: &[u8]) -> (v: Self)
        requires
            bytes@.len() == Self::width(),
        ensures
            v.encoded() == bytes@,
    ;

    fn wrapping_plus(self, other: Self) -> (v: Self)
        ensures
            v == self.plus(other),
    ;

    fn wrapping_minus(self, other: Self) -> (v: Self)
        ensures
            v == self.minus(other),
    ;

    fn is(self, other: Self) -> (b: bool)
        ensures
            b == (self == other),
    ;

    /// The number at `addr`.
    fn load(mem: &MetadataMemory, addr: Address) -> (v: Self)
        requires
            mem.wf(),
            mem.has(addr, Self::width()),
        ensures
            v.encoded() == mem.at(addr, Self::width()),
    {
        let at: usize = addr.0 - mem.start;
        Self::from_bytes(slice_subrange(mem.bytes.as_slice(), at, at + Self::size()))
    }

    /// The number at `addr`, in one access. It cannot be ordered as a store is.
    fn load_atomic(mem: &MetadataMemory, addr: Address, order: MemoryOrder) -> (v: Self)
        requires
            mem.wf(),
            mem.has(addr, Self::width()),
            order != MemoryOrder::Release && order != MemoryOrder::AcqRel,
        ensures
            v.encoded() == mem.at(addr, Self::width()),
    {
        Self::load(mem, addr)
    }

    /// Makes the number at `addr` `value`.
    fn store(mem: &mut MetadataMemory, addr: Address, value: Self)
        requires
            old(mem).wf(),
            old(mem).has(addr, Self::width()),
        ensures
            final(mem).wf(),
            final(mem).start == old(mem).start,
            final(mem)@ == overwritten(old(mem)@, addr@ - old(mem).start, value.encoded()),
    {
        proof {
            Self::lemma_encoding();
        }
        mem.write(addr, &value.to_bytes());
    }

    /// Makes the number at `addr` `value`, in one access. It cannot be ordered as a load is.
    fn store_atomic(mem: &mut MetadataMemory, addr: Address, value: Self, order: MemoryOrder)
        requires
            old(mem).wf(),
            old(mem).has(addr, Self::width()),
            order != MemoryOrder::Acquire && order != MemoryOrder::AcqRel,
        ensures
            final(mem).wf(),
            final(mem).start == old(mem).start,
            final(mem)@ == overwritten(old(mem)@, addr@ - old(mem).start, value.encoded()),
    {
        Self::store(mem, addr, value);
    }

    /// Makes the number at `addr` `new` where it is `current`, and says what it was: `Ok` where it
    /// was replaced, `Err` where it was left. The access without a store cannot be ordered as one.
    fn compare_exchange(
        mem: &mut MetadataMemory,
        addr: Address,
        current: Self,
        new: Self,
        _success: MemoryOrder,
        failure: MemoryOrder,
    ) -> (r: Result<Self, Self>)
        requires
            old(mem).wf(),
            old(mem).has(addr, Self::width()),
            failure != MemoryOrder::Release && failure != MemoryOrder::AcqRel,
        ensures
            final(mem).wf(),
            final(mem).start == old(mem).start,
            match r {
                Ok(v) => {
                    &&& v == current
                    &&& v.encoded() == old(mem).at(addr, Self::width())
                    &&& final(mem)@ == overwritten(
                        old(mem)@,
                        addr@ - old(mem).start,
                        new.encoded(),
                    )
                },
                Err(v) => {
                    &&& v != current
                    &&& v.encoded() == old(mem).at(addr, Self::width())
                    &&& final(mem)@ == old(mem)@
                },
            },
    {
        let found = Self::load(mem, addr);
        if found.is(current) {
            Self::store(mem, addr, new);
            Ok(found)
        } else {
            Err(found)
        }
    }

    /// Adds `value` to the number at `addr`, and says what it was.
    fn fetch_add(mem: &mut MetadataMemory, addr: Address, value: Self, _order: MemoryOrder) -> (v:
        Self)
        requires
            old(mem).wf(),
            old(mem).has(addr, Self::width()),
        ensures
            final(mem).wf(),
            final(mem).start == old(mem).start,
            v.encoded() == old(mem).at(addr, Self::width()),
            final(mem)@ == overwritten(
                old(mem)@,
                addr@ - old(mem).start,
                v.plus(value).encoded(),
            ),
    {
        let found = Self::load(mem, addr);
        Self::store(mem, addr, found.wrapping_plus(value));
        found
    }

    /// Takes `value` from the number at `addr`, and says what it was.
    fn fetch_sub(mem: &mut MetadataMemory, addr: Address, value: Self, _order: MemoryOrder) -> (v:
        Self)
        requires
            old(mem).wf(),
            old(mem).has(addr, Self::width()),
        ensures
            final(mem).wf(),
            final(mem).start == old(mem).start,
            v.encoded() == old(mem).at(addr, Self::width()),
            final(mem)@ == overwritten(
                old(mem)@,
                addr@ - old(mem).start,
                v.minus(value).encoded(),
            ),
    {
        let found = Self::load(mem, addr);
        Self::store(mem, addr, found.wrapping_minus(value));
        found
    }

    /// Replaces the number at `addr` by what `f` makes of it, if that is anything, and says what it
    /// was: `Ok` where it was replaced, `Err` where it was left.
    fn fetch_update<F: FnOnce(Self) -> Option<Self>>(
        mem: &mut MetadataMemory,
        addr: Address,
        _set_order: MemoryOrder,
        fetch_order: MemoryOrder,
        f: F,
    ) -> (r: Result<Self, Self>)
        requires
            old(mem).wf(),
            old(mem).has(addr, Self::width()),
            fetch_order != MemoryOrder::Release && fetch_order != MemoryOrder::AcqRel,
            forall|v: Self|
                v.encoded() == old(mem).at(addr, Self::width()) ==> #[trigger] call_requires(
                    f,
                    (v,),
                ),
        ensures
            final(mem).wf(),
            final(mem).start == old(mem).start,
            match r {
                Ok(v) => {
                    &&& v.encoded() == old(mem).at(addr, Self::width())
                    &&& exists|new: Self| #[trigger]
                        call_ensures(f, (v,), Some(new)) && final(mem)@ == overwritten(
                            old(mem)@,
                            addr@ - old(mem).start,
                            new.encoded(),
                        )
                },
                Err(v) => {
                    &&& v.encoded() == old(mem).at(addr, Self::width())
                    &&& call_ensures(f, (v,), None)
                    &&& final(mem)@ == old(mem)@
                },
            },
    {
        let found = Self::load(mem, addr);
        let answer = f(found);
        match answer {
            Some(new) => {
                assert(call_ensures(f, (found,), Some(new)));
                Self::store(mem, addr, new);
                assert(mem@ == overwritten(old(mem)@, addr@ - old(mem).start, new.encoded()));
                assert(exists|new: Self| #[trigger]
                    call_ensures(f, (found,), Some(new)) && mem@ == overwritten(
                        old(mem)@,
                        addr@ - old(mem).start,
                        new.encoded(),
                    ));
                Ok(found)
            },
            None => Err(found),
        }
    }
}

impl MetadataValue for u8 {
    open spec fn width() -> nat {
        1
    }

    open spec fn encoded(self) -> Seq<u8> {
        seq![self]
    }

    open spec fn plus(self, other: Self) -> Self {
        self.wrapping_add(other)
    }

    open spec fn minus(self, other: Self) -> Self {
        self.wrapping_sub(other)
    }

    proof fn lemma_encoding() {
        assert forall|v: Self, w: Self| #[trigger]
            v.encoded() == #[trigger] w.encoded() implies v == w by {
            assert(v.encoded()[0] == w.encoded()[0]);
        }
    }

    fn size() -> (n: usize) {
        1
    }

    fn to_bytes(self) -> (bytes: Vec<u8>) {
        vec![self]
    }

    fn from_bytes(bytes: &[u8]) -> (v: Self) {
        let v = bytes[0];
        assert(v.encoded() =~= bytes@);
        v
    }

    fn wrapping_plus(self, other: Self) -> (v: Self) {
        self.wrapping_add(other)
    }

    fn wrapping_minus(self, other: Self) -> (v: Self) {
        self.wrapping_sub(other)
    }

    fn is(self, other: Self) -> (b: bool) {
        self == other
    }
}

impl MetadataValue for u16 {
    open spec fn width() -> nat {
        2
    }

    open spec fn encoded(self) -> Seq<u8> {
        spec_u16_to_le_bytes(self)
    }

    open spec fn plus(self, other: Self) -> Self {
        self.wrapping_add(other)
    }

    open spec fn minus(self, other: Self) -> Self {
        self.wrapping_sub(other)
    }

    proof fn lemma_encoding() {
        lemma_auto_spec_u16_to_from_le_bytes();
        assert forall|v: Self, w: Self| #[trigger]
            v.encoded() == #[trigger] w.encoded() implies v == w by {
            assert(spec_u16_to_le_bytes(v).len() == 2 && spec_u16_to_le_bytes(w).len() == 2);
            assert(spec_u16_from_le_bytes(v.encoded()) == v);
            assert(spec_u16_from_le_bytes(w.encoded()) == w);
        }
    }

    fn size() -> (n: usize) {
        2
    }

    fn to_bytes(self) -> (bytes: Vec<u8>) {
        u16_to_le_bytes(self)
    }

    fn from_bytes(bytes: &[u8]) -> (v: Self) {
        proof {
            lemma_auto_spec_u16_to_from_le_bytes();
        }
        u16_from_le_bytes(bytes)
    }

    fn wrapping_plus(self, other: Self) -> (v: Self) {
        self.wrapping_add(other)
    }

    fn wrapping_minus(self, other: Self) -> (v: Self) {
        self.wrapping_sub(other)
    }

    fn is(self, other: Self) -> (b: bool) {
        self == other
    }
}

impl MetadataValue for u32 {
    open spec fn width() -> nat {
        4
    }

    open spec fn encoded(self) -> Seq<u8> {
        spec_u32_to_le_bytes(self)
    }

    open spec fn plus(self, other: Self) -> Self {
        self.wrapping_add(other)
    }

    open spec fn minus(self, other: Self) -> Self {
        self.wrapping_sub(other)
    }

    proof fn lemma_encoding() {
        lemma_auto_spec_u32_to_from_le_bytes();
        assert forall|v: Self, w: Self| #[trigger]
            v.encoded() == #[trigger] w.encoded() implies v == w by {
            assert(spec_u32_to_le_bytes(v).len() == 4 && spec_u32_to_le_bytes(w).len() == 4);
            assert(spec_u32_from_le_bytes(v.encoded()) == v);
            assert(spec_u32_from_le_bytes(w.encoded()) == w);
        }
    }

    fn size() -> (n: usize) {
        4
    }

    fn to_bytes(self) -> (bytes: Vec<u8>) {
        u32_to_le_bytes(self)
    }

    fn from_bytes(bytes: &[u8]) -> (v: Self) {
        proof {
            lemma_auto_spec_u32_to_from_le_bytes();
        }
        u32_from_le_bytes(bytes)
    }

    fn wrapping_plus(self, other: Self) -> (v: Self) {
        self.wrapping_add(other)
    }

    fn wrapping_minus(self, other: Self) -> (v: Self) {
        self.wrapping_sub(other)
    }

    fn is(self, other: Self) -> (b: bool) {
        self == other
    }
}

impl MetadataValue for u64 {
    open spec fn width() -> nat {
        8
    }

    open spec fn encoded(self) -> Seq<u8> {
        spec_u64_to_le_bytes(self)
    }

    open spec fn plus(self, other: Self) -> Self {
        self.wrapping_add(other)
    }

    open spec fn minus(self, other: Self) -> Self {
        self.wrapping_sub(other)
    }

    proof fn lemma_encoding() {
        lemma_auto_spec_u64_to_from_le_bytes();
        assert forall|v: Self, w: Self| #[trigger]
            v.encoded() == #[trigger] w.encoded() implies v == w by {
            assert(spec_u64_to_le_bytes(v).len() == 8 && spec_u64_to_le_bytes(w).len() == 8);
            assert(spec_u64_from_le_bytes(v.encoded()) == v);
            assert(spec_u64_from_le_bytes(w.encoded()) == w);
        }
    }

    fn size() -> (n: usize) {
        8
    }

    fn to_bytes(self) -> (bytes: Vec<u8>) {
        u64_to_le_bytes(self)
    }

    fn from_bytes(bytes: &[u8]) -> (v: Self) {
        proof {
            lemma_auto_spec_u64_to_from_le_bytes();
        }
        u64_from_le_bytes(bytes)
    }

    fn wrapping_plus(self, other: Self) -> (v: Self) {
        self.wrapping_add(other)
    }

    fn wrapping_minus(self, other: Self) -> (v: Self) {
        self.wrapping_sub(other)
    }

    fn is(self, other: Self) -> (b: bool) {
        self == other
    }
}

impl MetadataValue for usize {
    open spec fn width() -> nat {
        if usize::BITS == 64 {
            8
        } else {
            4
        }
    }

    open spec fn encoded(self) -> Seq<u8> {
        if usize::BITS == 64 {
            spec_u64_to_le_bytes(self as u64)
        } else {
            spec_u32_to_le_bytes(self as u32)
        }
    }

    open spec fn plus(self, other: Self) -> Self {
        self.wrapping_add(other)
    }

    open spec fn minus(self, other: Self) -> Self {
        self.wrapping_sub(other)
    }

    proof fn lemma_encoding() {
        lemma_auto_spec_u64_to_from_le_bytes();
        lemma_auto_spec_u32_to_from_le_bytes();
        assert forall|v: Self, w: Self| #[trigger]
            v.encoded() == #[trigger] w.encoded() implies v == w by {
            if usize::BITS == 64 {
                assert(spec_u64_to_le_bytes(v as u64).len() == 8);
                assert(spec_u64_to_le_bytes(w as u64).len() == 8);
                assert(spec_u64_from_le_bytes(v.encoded()) == v as u64);
                assert(spec_u64_from_le_bytes(w.encoded()) == w as u64);
            } else {
                assert(spec_u32_to_le_bytes(v as u32).len() == 4);
                assert(spec_u32_to_le_bytes(w as u32).len() == 4);
                assert(spec_u32_from_le_bytes(v.encoded()) == v as u32);
                assert(spec_u32_from_le_bytes(w.encoded()) == w as u32);
            }
        }
    }

    fn size() -> (n: usize) {
        if usize::BITS == 64 {
            8
        } else {
            4
        }
    }

    fn to_bytes(self) -> (bytes: Vec<u8>) {
        if usize::BITS == 64 {
            u64_to_le_bytes(self as u64)
        } else {
            u32_to_le_bytes(self as u32)
        }
    }

    fn from_bytes(bytes: &[u8]) -> (v: Self) {
        proof {
            lemma_auto_spec_u64_to_from_le_bytes();
            lemma_auto_spec_u32_to_from_le_bytes();
        }
        if usize::BITS == 64 {
            u64_from_le_bytes(bytes) as usize
        } else {
            u32_from_le_bytes(bytes) as usize
        }
    }

    fn wrapping_plus(self, other: Self) -> (v: Self) {
        self.wrapping_add(other)
    }

    fn wrapping_minus(self, other: Self) -> (v: Self) {
        self.wrapping_sub(other)
    }

    fn is(self, other: Self) -> (b: bool) {
        self == other
    }
}

/// What was stored at an address is what is loaded there, and the rest of the memory is as it was.
pub proof fn law_load_gives_what_was_stored<T: MetadataValue>(
    before: MetadataMemory,
    addr: Address,
    value: T,
    after: MetadataMemory,
    loaded: T,
    other: Address,
    width: nat,
)
    requires
        before.wf(),
        before.has(addr, T::width()),
        after.start == before.start,
        after@ == overwritten(before@, addr@ - before.start, value.encoded()),
        loaded.encoded() == after.at(addr, T::width()),
        before.has(other, width),
        other@ + width <= addr@ || addr@ + T::width() <= other@,
    ensures
        loaded == value,
        after.at(other, width) == before.at(other, width),
{
    T::lemma_encoding();
    assert(after.at(addr, T::width()) =~= value.encoded());
    assert(after.at(other, width) =~= before.at(other, width));
}

/// Taking away what was added gives the number back, also where the sum did not fit.
pub proof fn law_sub_undoes_add(
    a: (u8, u8),
    b: (u16, u16),
    c: (u32, u32),
    d: (u64, u64),
    e: (usize, usize),
)
    ensures
        a.0.plus(a.1).minus(a.1) == a.0,
        b.0.plus(b.1).minus(b.1) == b.0,
        c.0.plus(c.1).minus(c.1) == c.0,
        d.0.plus(d.1).minus(d.1) == d.0,
        e.0.plus(e.1).minus(e.1) == e.0,
{
}

} // verus!
