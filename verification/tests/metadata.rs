use mmtk::util::address::Address;
use mmtk::util::metadata::metadata_val_traits::{
    Bits, BitwiseOps, MemoryOrder, MetadataMemory, MetadataValue,
};

#[test]
fn bits_of_numbers() {
    assert_eq!((<u8 as Bits>::BITS, <u8 as Bits>::LOG2), (8, 3));
    assert_eq!((<u16 as Bits>::BITS, <u16 as Bits>::LOG2), (16, 4));
    assert_eq!((<u32 as Bits>::BITS, <u32 as Bits>::LOG2), (32, 5));
    assert_eq!((<u64 as Bits>::BITS, <u64 as Bits>::LOG2), (64, 6));
    assert_eq!(<usize as Bits>::BITS, usize::BITS);
    assert_eq!(<usize as Bits>::LOG2, usize::BITS.trailing_zeros());
}

#[test]
fn bitwise_operations() {
    assert_eq!(BitwiseOps::bitand(0b1100u8, 0b1010), 0b1000);
    assert_eq!(BitwiseOps::bitor(0b1100u16, 0b1010), 0b1110);
    assert_eq!(BitwiseOps::bitxor(0b1100u32, 0b1010), 0b0110);
    assert_eq!(BitwiseOps::inv(0u64), u64::MAX);
    assert_eq!(BitwiseOps::inv(usize::MAX), 0);
}

#[test]
fn numbers_are_stored_least_byte_first() {
    let mut m = MetadataMemory::new(0x100, 16);
    u32::store(&mut m, Address(0x104), 0x0403_0201);
    assert_eq!(m.bytes[4..8], [1, 2, 3, 4]);
    assert_eq!(u16::load(&m, Address(0x104)), 0x0201);
    assert_eq!(u8::load(&m, Address(0x107)), 4);
    u64::store_atomic(&mut m, Address(0x108), u64::MAX, MemoryOrder::Release);
    assert_eq!(usize::load_atomic(&m, Address(0x108), MemoryOrder::Acquire), usize::MAX);
    assert_eq!(u32::load(&m, Address(0x104)), 0x0403_0201);
    assert_eq!(u32::load(&m, Address(0x100)), 0);
}

#[test]
fn exchanging_numbers() {
    let mut m = MetadataMemory::new(0, 8);
    let a = Address(2);
    let (s, r) = (MemoryOrder::SeqCst, MemoryOrder::Relaxed);
    assert_eq!(u16::compare_exchange(&mut m, a, 0, 7, s, r), Ok(0));
    assert_eq!(u16::compare_exchange(&mut m, a, 0, 9, s, r), Err(7));
    assert_eq!(u16::load(&m, a), 7);
    assert_eq!(u16::fetch_update(&mut m, a, s, r, |v: u16| Some(v * 2)), Ok(7));
    assert_eq!(u16::fetch_update(&mut m, a, s, r, |_v: u16| None), Err(14));
    assert_eq!(u16::load(&m, a), 14);
}

#[test]
fn adding_wraps() {
    let mut m = MetadataMemory::new(0, 8);
    let a = Address(0);
    u8::store(&mut m, a, 250);
    assert_eq!(u8::fetch_add(&mut m, a, 10, MemoryOrder::SeqCst), 250);
    assert_eq!(u8::load(&m, a), 4);
    assert_eq!(u8::fetch_sub(&mut m, a, 10, MemoryOrder::SeqCst), 4);
    assert_eq!(u8::load(&m, a), 250);
    assert_eq!(u8::load(&m, Address(1)), 0);
    assert_eq!(usize::fetch_sub(&mut m, a, 251, MemoryOrder::Relaxed), 250);
    assert_eq!(usize::load(&m, a), usize::MAX);
}
