use bitfields::atomic_bitfield::AtomicBitfieldU64;
use bitfields::bitfield::Bitfield;
use bitfields::data::BitfieldData;

#[test]
pub fn test() {
    let b1 = Bitfield::<u8>::from_num(10); // 1010
    let b2 = Bitfield::<u8>::from_num(11); // 1011
    assert!(b2.contains(&b1));

    let t1 = Bitfield::<u32>::from_num(156); // 1001 1100
    let t2 = Bitfield::<u32>::from_num(20); // 0001 0100

    let c1 = Bitfield::<usize>::from_num(0); // 0000 0000
    let c2 = Bitfield::<usize>::from_num(0); // 0000 0000

    let y1 = Bitfield::<u8>::from_num(0); // 0000 0000
    let y2 = Bitfield::<u8>::from_num(1); // 0000 0001
    let y3 = Bitfield::<u8>::from_num(3); // 0000 0011
    assert!(t1.contains(&t2));
    assert!(t1.remove(&Bitfield::<u32>::from_num(156)).unwrap().empty());
    // The empty set is contained in every set, itself included.
    assert!(c1.contains(&c2));
    assert!(y2.contains(&y1));
    assert!(!y1.contains(&y2));
    assert!(!y2.contains(&y3));
    assert!(y3.contains(&y2));
}

#[test]
pub fn test_removal() {
    let b1 = Bitfield::<u8>::from_num(10); // 1010
    let b2 = Bitfield::<u8>::from_num(11); // 1011
    assert_eq!(b2.remove(&b1).unwrap(), Bitfield::<u8>::from_num(1)); // 0001
    assert!(b1.remove(&b2).is_none()); // Not possible since b1 does not fully contain b2
}

#[test]
fn add_contains_both_operands() {
    let a = Bitfield::<u16>::from_num(0b1010);
    let b = Bitfield::<u16>::from_num(0b0101);
    let c = a.add(&b);
    assert_eq!(*c.inner(), 0b1111);
    assert!(c.contains(&a));
    assert!(c.contains(&b));
    let z = Bitfield::<u64>::zero();
    assert!(z.add(&z).contains(&z));
}

#[test]
fn remove_self_is_empty() {
    for n in [0u128, 1, 156, u128::MAX] {
        let a = Bitfield::<u128>::from_num(n);
        assert!(a.remove(&a).unwrap().empty());
    }
}

#[test]
fn outside_bit_breaks_containment() {
    let a = Bitfield::<u64>::from_num(0b0110);
    assert!(!a.contains(&Bitfield::<u64>::from_num(0b1000)));
    assert!(!a.contains(&Bitfield::<u64>::from_num(0b0111)));
    assert!(a.contains(&Bitfield::<u64>::from_num(0b0100)));
    assert!(Bitfield::<u8>::from_num(u8::MAX).contains(&Bitfield::<u8>::from_num(0x81)));
}

#[test]
fn constructors_and_shifts() {
    assert!(Bitfield::<u8>::new().empty());
    assert!(Bitfield::<u8>::zero().empty());
    assert_eq!(*Bitfield::<u32>::one().inner(), 1);
    let mut b = Bitfield::<u8>::from_num(0b1000_0011);
    b.increment();
    assert_eq!(*b.inner(), 0b0000_0110);
    b.decrement();
    assert_eq!(*b.inner(), 0b0000_0011);
    let mut w = Bitfield::<usize>::from_num(5);
    w.decrement();
    assert_eq!(*w.inner(), 2);
}

#[test]
fn read_and_write_bits() {
    let mut b = Bitfield::<u32>::new();
    b.write(3, true);
    b.write(31, true);
    assert!(b.read(3));
    assert!(b.read(31));
    assert!(!b.read(4));
    assert_eq!(*b.inner(), (1u32 << 31) | 8);
    b.write(3, false);
    assert!(!b.read(3));
    assert!(b.read(31));
    assert_eq!(*b.inner(), 1u32 << 31);
    let mut one = Bitfield::<u64>::from_num(1);
    one.write(0, false);
    assert!(one.empty());
    let c = Bitfield::<u8>::from_num(0b100);
    assert!(c.read(2));
    assert!(!c.read(0));
}

#[test]
fn atomic_word_algebra() {
    let a = AtomicBitfieldU64::from_num(10);
    let b = AtomicBitfieldU64::from_num(5);
    let c = a.add(&b);
    assert_eq!(c.bitfield(), 15);
    assert!(c.contains(&a));
    assert!(c.contains(&b));
    assert!(!a.contains(&b));
    assert!(a.contains(&AtomicBitfieldU64::new()));
    let b1 = AtomicBitfieldU64::from_num(10);
    let b2 = AtomicBitfieldU64::from_num(11);
    assert_eq!(b2.remove(&b1).map(|r| r.bitfield()), Some(1));
    assert!(b1.remove(&b2).is_none());
    assert!(c.remove(&c).unwrap().empty());
}

#[test]
fn atomic_word_constructors() {
    assert!(AtomicBitfieldU64::new().empty());
    assert_eq!(AtomicBitfieldU64::new_one().bitfield(), 1);
    assert!(!AtomicBitfieldU64::new_one().empty());
    let mut a = AtomicBitfieldU64::from_num(7);
    assert_eq!(a.bitfield(), 7);
    a.set_bitfield(0);
    assert!(a.empty());
}

#[test]
fn default_one_is_one() {
    assert_eq!(<u8 as BitfieldData>::default_one(), 1u8);
    assert_eq!(<u16 as BitfieldData>::default_one(), 1u16);
    assert_eq!(<u32 as BitfieldData>::default_one(), 1u32);
    assert_eq!(<u64 as BitfieldData>::default_one(), 1u64);
    assert_eq!(<u128 as BitfieldData>::default_one(), 1u128);
    assert_eq!(<usize as BitfieldData>::default_one(), 1usize);
}

#[test]
fn from_word_keeps_its_bits() {
    let b: Bitfield<u8> = Bitfield::from(0b0101u8);
    assert_eq!(*b.inner(), 0b0101);
    assert_eq!(b, Bitfield::<u8>::from_num(5));
    assert!(b.read(2));
    assert!(!b.read(1));
    assert_eq!(Bitfield::<u16>::default(), Bitfield::<u16>::new());
}

#[test]
fn bitwise_operators() {
    let a = Bitfield::<u8>::from_num(0b1100);
    let b = Bitfield::<u8>::from_num(0b1010);
    assert_eq!(*(a | b).inner(), 0b1110);
    assert_eq!(*(a & b).inner(), 0b1000);
    assert_eq!(*(a ^ b).inner(), 0b0110);
    assert_eq!(a | b, a.add(&b));
}

#[test]
fn atomic_word_default_and_replace() {
    let d = AtomicBitfieldU64::default();
    assert!(d.empty());
    assert_eq!(d.bitfield(), 0);
    let mut a = AtomicBitfieldU64::from_num(11);
    assert!(a.contains(&AtomicBitfieldU64::from_num(10)));
    assert!(!AtomicBitfieldU64::from_num(10).contains(&a));
    assert!(AtomicBitfieldU64::new().contains(&AtomicBitfieldU64::new()));
    a.set_bitfield(4);
    assert_eq!(a.bitfield(), 4);
    assert!(!a.contains(&AtomicBitfieldU64::from_num(10)));
}
