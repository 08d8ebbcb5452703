//! What holds of the numbers that metadata consists of.
use crate::util::address::Address;
use crate::util::metadata::metadata_val_traits::{
    BitwiseOps, MemoryOrder, MetadataMemory, MetadataValue,
};
use vstd::bytes::{spec_u16_to_le_bytes, spec_u32_to_le_bytes, spec_u64_to_le_bytes};
use vstd::prelude::*;

verus! {

/// Memory that is new holds zeroes. Bytes that are written are there, and no others change.
pub proof fn law_written_bytes_are_there(
    start: usize,
    len: usize,
    made: MetadataMemory,
    memory: &mut MetadataMemory,
    address: Address,
    bytes: &Vec<u8>,
    i: int,
)
    requires
        call_ensures(MetadataMemory::new, (start, len), made),
        call_ensures(MetadataMemory::write, (memory, address, bytes), ()),
        memory.start <= address@,
        address@ + bytes@.len() <= memory.start + memory.bytes@.len(),
        0 <= i < memory.bytes@.len(),
    ensures
        made.start == start,
        made.bytes@.len() == len,
        i < len ==> made.bytes@[i] == 0,
        final(memory).start == old(memory).start,
        final(memory).bytes@.len() == old(memory).bytes@.len(),
        ({
            let at = address@ - old(memory).start;
            &&& at <= i < at + bytes@.len() ==> final(memory).bytes@[i] == bytes@[i - at]
            &&& !(at <= i < at + bytes@.len()) ==> final(memory).bytes@[i] == old(memory).bytes@[i]
        }),
{
}

/// What is stored is what is loaded, in one access or not, and no byte outside the number changes.
#[verifier::spinoff_prover]
pub proof fn law_stored_number_is_loaded<T: MetadataValue>(
    storing: &mut MetadataMemory,
    addr: Address,
    value: T,
    loaded: T,
    loaded_at_once: T,
    at_once: &mut MetadataMemory,
    order: MemoryOrder,
    read: MemoryOrder,
    loaded_after: T,
    i: int,
)
    requires
        storing.wf() && storing.has(addr, T::width()),
        call_ensures(T::store, (storing, addr, value), ()),
        call_ensures(T::load, (&*final(storing), addr), loaded),
        call_ensures(T::load_atomic, (&*final(storing), addr, read), loaded_at_once),
        at_once.wf() && at_once.has(addr, T::width()),
        call_ensures(T::store_atomic, (at_once, addr, value, order), ()),
        call_ensures(T::load, (&*final(at_once), addr), loaded_after),
        0 <= i < storing.bytes@.len(),
    ensures
        loaded == value,
        loaded_at_once == value,
        loaded_after == value,
        !(addr@ - old(storing).start <= i < addr@ - old(storing).start + T::width())
            ==> final(storing).bytes@[i] == old(storing).bytes@[i],
        0 <= i < old(at_once).bytes@.len() && !(addr@ - old(at_once).start <= i < addr@ - old(at_once).start + T::width()) ==> final(at_once).bytes@[i] == old(at_once).bytes@[i],
        final(storing).bytes@.len() == old(storing).bytes@.len(),
{
    T::lemma_encoding();
    assert(final(storing).at(addr, T::width()) =~= value.encoded());
    assert(final(at_once).at(addr, T::width()) =~= value.encoded());
}

/// An exchange succeeds exactly if the number is the one expected, and says what it was; then it is the new one, and
/// otherwise nothing changes.
#[verifier::spinoff_prover]
pub proof fn law_number_is_exchanged_if_it_is_expected<T: MetadataValue>(
    memory: &mut MetadataMemory,
    addr: Address,
    current: T,
    new: T,
    success: MemoryOrder,
    failure: MemoryOrder,
    before: T,
    r: Result<T, T>,
    after: T,
)
    requires
        memory.wf() && memory.has(addr, T::width()),
        call_ensures(T::load, (&*memory, addr), before),
        call_ensures(T::compare_exchange, (memory, addr, current, new, success, failure), r),
        call_ensures(T::load, (&*final(memory), addr), after),
    ensures
        before == current ==> r == Ok::<T, T>(before) && after == new,
        before != current ==> r == Err::<T, T>(before) && after == before && final(memory).bytes@
            == old(memory).bytes@,
{
    T::lemma_encoding();
    if let Ok(v) = r {
        assert(final(memory).at(addr, T::width()) =~= new.encoded());
    }
}

/// Adding to a number, and taking from it, say what it was, and leave the sum and the difference.
#[verifier::spinoff_prover]
pub proof fn law_fetching_says_what_was_there<T: MetadataValue>(
    adding: &mut MetadataMemory,
    subtracting: &mut MetadataMemory,
    addr: Address,
    value: T,
    order: MemoryOrder,
    before: T,
    found: T,
    after: T,
    sum: T,
    before_too: T,
    found_too: T,
    after_too: T,
    difference: T,
)
    requires
        adding.wf() && adding.has(addr, T::width()),
        call_ensures(T::load, (&*adding, addr), before),
        call_ensures(T::fetch_add, (adding, addr, value, order), found),
        call_ensures(T::load, (&*final(adding), addr), after),
        call_ensures(T::wrapping_plus, (before, value), sum),
        subtracting.wf() && subtracting.has(addr, T::width()),
        call_ensures(T::load, (&*subtracting, addr), before_too),
        call_ensures(T::fetch_sub, (subtracting, addr, value, order), found_too),
        call_ensures(T::load, (&*final(subtracting), addr), after_too),
        call_ensures(T::wrapping_minus, (before_too, value), difference),
    ensures
        found == before,
        after == sum,
        found_too == before_too,
        after_too == difference,
{
    T::lemma_encoding();
    assert(found.encoded() == before.encoded());
    assert(found_too.encoded() == before_too.encoded());
    assert(final(adding).at(addr, T::width()) =~= found.plus(value).encoded());
    assert(final(subtracting).at(addr, T::width()) =~= found_too.minus(value).encoded());
}

/// Sums and differences come round where they do not fit.
pub proof fn law_sums_come_round(
    a: u8,
    b: u8,
    sum8: u8,
    dif8: u8,
    c: u16,
    d: u16,
    sum16: u16,
    dif16: u16,
    e: u32,
    f: u32,
    sum32: u32,
    dif32: u32,
    g: u64,
    h: u64,
    sum64: u64,
    dif64: u64,
    k: usize,
    l: usize,
    sum: usize,
    dif: usize,
)
    requires
        call_ensures(<u8 as MetadataValue>::wrapping_plus, (a, b), sum8),
        call_ensures(<u8 as MetadataValue>::wrapping_minus, (a, b), dif8),
        call_ensures(<u16 as MetadataValue>::wrapping_plus, (c, d), sum16),
        call_ensures(<u16 as MetadataValue>::wrapping_minus, (c, d), dif16),
        call_ensures(<u32 as MetadataValue>::wrapping_plus, (e, f), sum32),
        call_ensures(<u32 as MetadataValue>::wrapping_minus, (e, f), dif32),
        call_ensures(<u64 as MetadataValue>::wrapping_plus, (g, h), sum64),
        call_ensures(<u64 as MetadataValue>::wrapping_minus, (g, h), dif64),
        call_ensures(<usize as MetadataValue>::wrapping_plus, (k, l), sum),
        call_ensures(<usize as MetadataValue>::wrapping_minus, (k, l), dif),
    ensures
        sum8 == (a + b) % 0x100,
        dif8 == (a - b) % 0x100,
        sum16 == (c + d) % 0x1_0000,
        dif16 == (c - d) % 0x1_0000,
        sum32 == (e + f) % 0x1_0000_0000,
        dif32 == (e - f) % 0x1_0000_0000,
        sum64 == (g + h) % 0x1_0000_0000_0000_0000,
        dif64 == (g - h) % 0x1_0000_0000_0000_0000,
        sum == (k + l) % (usize::MAX + 1),
        dif == (k - l) % (usize::MAX + 1),
{
}

/// The operations on bits, bit by bit: the number with the bits of both, of either and of just one of two numbers, and
/// the one with the others.
pub proof fn law_bits_of_numbers(
    a: u8,
    b: u8,
    both: u8,
    either: u8,
    one: u8,
    others: u8,
    c: u64,
    d: u64,
    both64: u64,
    either64: u64,
    one64: u64,
    others64: u64,
)
    requires
        call_ensures(<u8 as BitwiseOps>::bitand, (a, b), both),
        call_ensures(<u8 as BitwiseOps>::bitor, (a, b), either),
        call_ensures(<u8 as BitwiseOps>::bitxor, (a, b), one),
        call_ensures(<u8 as BitwiseOps>::inv, (a,), others),
        call_ensures(<u64 as BitwiseOps>::bitand, (c, d), both64),
        call_ensures(<u64 as BitwiseOps>::bitor, (c, d), either64),
        call_ensures(<u64 as BitwiseOps>::bitxor, (c, d), one64),
        call_ensures(<u64 as BitwiseOps>::inv, (c,), others64),
    ensures
        both == a & b && either == a | b && one == a ^ b && others == !a,
        both64 == c & d && either64 == c | d && one64 == c ^ d && others64 == !c,
{
}

/// As for numbers of the other widths.
pub proof fn law_bits_of_wider_numbers(
    a: u16,
    b: u16,
    both: u16,
    either: u16,
    one: u16,
    others: u16,
    c: u32,
    d: u32,
    both32: u32,
    either32: u32,
    one32: u32,
    others32: u32,
    e: usize,
    f: usize,
    both_size: usize,
    either_size: usize,
    one_size: usize,
    others_size: usize,
)
    requires
        call_ensures(<u16 as BitwiseOps>::bitand, (a, b), both),
        call_ensures(<u16 as BitwiseOps>::bitor, (a, b), either),
        call_ensures(<u16 as BitwiseOps>::bitxor, (a, b), one),
        call_ensures(<u16 as BitwiseOps>::inv, (a,), others),
        call_ensures(<u32 as BitwiseOps>::bitand, (c, d), both32),
        call_ensures(<u32 as BitwiseOps>::bitor, (c, d), either32),
        call_ensures(<u32 as BitwiseOps>::bitxor, (c, d), one32),
        call_ensures(<u32 as BitwiseOps>::inv, (c,), others32),
        call_ensures(<usize as BitwiseOps>::bitand, (e, f), both_size),
        call_ensures(<usize as BitwiseOps>::bitor, (e, f), either_size),
        call_ensures(<usize as BitwiseOps>::bitxor, (e, f), one_size),
        call_ensures(<usize as BitwiseOps>::inv, (e,), others_size),
    ensures
        both == a & b && either == a | b && one == a ^ b && others == !a,
        both32 == c & d && either32 == c | d && one32 == c ^ d && others32 == !c,
        both_size == e & f && either_size == e | f && one_size == e ^ f && others_size == !e,
{
}

/// The bytes of a number lie with the least first.
pub proof fn law_bytes_lie_least_first(
    a: u8,
    one: Vec<u8>,
    b: u16,
    two: Vec<u8>,
    c: u32,
    four: Vec<u8>,
    d: u64,
    eight: Vec<u8>,
    e: usize,
    word: Vec<u8>,
)
    requires
        call_ensures(<u8 as MetadataValue>::to_bytes, (a,), one),
        call_ensures(<u16 as MetadataValue>::to_bytes, (b,), two),
        call_ensures(<u32 as MetadataValue>::to_bytes, (c,), four),
        call_ensures(<u64 as MetadataValue>::to_bytes, (d,), eight),
        call_ensures(<usize as MetadataValue>::to_bytes, (e,), word),
    ensures
        one@ == seq![a],
        two@ == spec_u16_to_le_bytes(b),
        four@ == spec_u32_to_le_bytes(c),
        eight@ == spec_u64_to_le_bytes(d),
        usize::BITS == 64 ==> word@ == spec_u64_to_le_bytes(e as u64),
        usize::BITS == 32 ==> word@ == spec_u32_to_le_bytes(e as u32),
{
}

/// A number is told from its bytes, and two numbers are the same exactly if they are found to be.
pub proof fn law_number_is_told_from_its_bytes<T: MetadataValue>(
    v: T,
    bytes: Vec<u8>,
    slice: &[u8],
    back: T,
    other: T,
    same: bool,
    n: usize,
)
    requires
        call_ensures(T::to_bytes, (v,), bytes),
        slice@ == bytes@,
        call_ensures(T::from_bytes, (slice,), back),
        call_ensures(T::is, (v, other), same),
        call_ensures(T::size, (), n),
    ensures
        back == v,
        same <==> v == other,
        bytes@.len() == n,
{
    T::lemma_encoding();
    assert(back.encoded() == v.encoded());
}

} // verus!
