//! The unsigned integer types that can hold a dense bit set, and the bit
//! operations that a dense set needs of them.
use vstd::prelude::*;

verus! {

/// `a` holds every bit that `b` holds: no bit of `b` lies outside `a`.
pub open spec fn covers<T: BitfieldData>(a: T, b: T) -> bool {
    b.minus_spec(a).value() == 0
}

/// An unsigned integer type whose bits can serve as a dense bit set.
pub trait BitfieldData: Copy + Sized {
    /// The integer's value.
    spec fn value(self) -> nat;

    /// The number of bits in the type.
    spec fn width() -> nat;

    /// Bit `i`: `(self >> i) & 1`, unset past the width.
    spec fn bit(self, i: nat) -> bool;

    /// `self | o`.
    spec fn union_spec(self, o: Self) -> Self;

    /// `self & !o`.
    spec fn minus_spec(self, o: Self) -> Self;

    /// `self & o`.
    spec fn meet_spec(self, o: Self) -> Self;

    /// `self ^ o`.
    spec fn toggle_spec(self, o: Self) -> Self;

    /// `self << 1`: the top bit is dropped.
    spec fn shl1_spec(self) -> Self;

    /// `self >> 1`: the bottom bit is dropped.
    spec fn shr1_spec(self) -> Self;

    /// The word with bit 0 alone set.
    fn default_one() -> (r: Self)
        ensures
            r.value() == 1,
    ;

    /// The word with no bit set.
    fn zero_word() -> (r: Self)
        ensures
            r.value() == 0,
    ;

    /// `self | o`.
    fn union(self, o: Self) -> (r: Self)
        ensures
            r == self.union_spec(o),
    ;

    /// `self & !o`.
    fn minus(self, o: Self) -> (r: Self)
        ensures
            r == self.minus_spec(o),
    ;

    /// `self & o`.
    fn meet(self, o: Self) -> (r: Self)
        ensures
            r == self.meet_spec(o),
    ;

    /// `self ^ o`.
    fn toggle(self, o: Self) -> (r: Self)
        ensures
            r == self.toggle_spec(o),
    ;

    /// Whether no bit is set.
    fn is_zero(self) -> (r: bool)
        ensures
            r == (self.value() == 0),
    ;

    /// `self << 1`.
    fn shl1(self) -> (r: Self)
        ensures
            r == self.shl1_spec(),
    ;

    /// `self >> 1`.
    fn shr1(self) -> (r: Self)
        ensures
            r == self.shr1_spec(),
    ;

    /// Bit `pos`.
    fn read_bit(self, pos: Self) -> (r: bool)
        requires
            pos.value() < Self::width(),
        ensures
            r == self.bit(pos.value()),
    ;

    /// `self` with bit `pos` set (`b` true) or cleared (`b` false).
    fn with_bit(self, pos: Self, b: bool) -> (r: Self)
        requires
            pos.value() < Self::width(),
        ensures
            forall|i: nat| #[trigger] r.bit(i) == if i == pos.value() { b } else { self.bit(i) },
    ;

    /// A union holds each of its operands.
    proof fn lemma_union_covers(a: Self, b: Self)
        ensures
            a.minus_spec(a.union_spec(b)).value() == 0,
            b.minus_spec(a.union_spec(b)).value() == 0,
    ;

    /// A word without its own bits is zero.
    proof fn lemma_minus_self(a: Self)
        ensures
            a.minus_spec(a).value() == 0,
    ;

    /// A bit of `b` outside `a` survives in `b & !a`.
    proof fn lemma_outside_bit(a: Self, b: Self, i: nat)
        requires
            b.bit(i),
            !a.bit(i),
        ensures
            b.minus_spec(a).value() != 0,
    ;

    /// Where `b & !a` is zero, each bit of `b` is a bit of `a`.
    proof fn lemma_covers_bitwise(a: Self, b: Self, i: nat)
        requires
            b.minus_spec(a).value() == 0,
            b.bit(i),
        ensures
            a.bit(i),
    ;
}

impl BitfieldData for u8 {
    open spec fn value(self) -> nat {
        self as nat
    }

    open spec fn width() -> nat {
        8 as nat
    }

    open spec fn bit(self, i: nat) -> bool {
        i < 8 as nat && (self >> (i as u8)) & 1u8 == 1u8
    }

    open spec fn union_spec(self, o: Self) -> Self {
        self | o
    }

    open spec fn minus_spec(self, o: Self) -> Self {
        self & !o
    }

    open spec fn meet_spec(self, o: Self) -> Self {
        self & o
    }

    open spec fn toggle_spec(self, o: Self) -> Self {
        self ^ o
    }

    open spec fn shl1_spec(self) -> Self {
        self << 1u8
    }

    open spec fn shr1_spec(self) -> Self {
        self >> 1u8
    }

    fn default_one() -> (r: Self) {
        1
    }

    fn zero_word() -> (r: Self) {
        0
    }

    fn union(self, o: Self) -> (r: Self) {
        self | o
    }

    fn minus(self, o: Self) -> (r: Self) {
        self & !o
    }

    fn meet(self, o: Self) -> (r: Self) {
        self & o
    }

    fn toggle(self, o: Self) -> (r: Self) {
        self ^ o
    }

    fn is_zero(self) -> (r: bool) {
        self == 0
    }

    fn shl1(self) -> (r: Self) {
        self << 1u8
    }

    fn shr1(self) -> (r: Self) {
        self >> 1u8
    }

    fn read_bit(self, pos: Self) -> (r: bool) {
        (self >> pos) & 1u8 == 1u8
    }

    fn with_bit(self, pos: Self, b: bool) -> (r: Self) {
        let mask: u8 = 1u8 << pos;
        let r = if b {
            self | mask
        } else {
            self & !mask
        };
        proof {
            assert forall|i: nat| #[trigger] r.bit(i) == if i == pos as nat { b } else { self.bit(i) } by {
                if i < 8 as nat {
                    let ii = i as u8;
                    assert(((self | (1u8 << pos)) >> ii) & 1u8 == 1u8 <==> ((self >> ii) & 1u8 == 1u8 || ii == pos))
                        by (bit_vector)
                        requires
                            ii < 8,
                            pos < 8,
                    ;
                    assert(((self & !(1u8 << pos)) >> ii) & 1u8 == 1u8 <==> ((self >> ii) & 1u8 == 1u8 && ii != pos))
                        by (bit_vector)
                        requires
                            ii < 8,
                            pos < 8,
                    ;
                }
            }
        }
        r
    }

    proof fn lemma_union_covers(a: Self, b: Self) {
        assert(a & !(a | b) == 0) by (bit_vector);
        assert(b & !(a | b) == 0) by (bit_vector);
    }

    proof fn lemma_minus_self(a: Self) {
        assert(a & !a == 0) by (bit_vector);
    }

    proof fn lemma_outside_bit(a: Self, b: Self, i: nat) {
        let ii = i as u8;
        assert(((b >> ii) & 1u8 == 1u8 && (a >> ii) & 1u8 != 1u8 && ii < 8) ==> b & !a != 0)
            by (bit_vector);
    }

    proof fn lemma_covers_bitwise(a: Self, b: Self, i: nat) {
        let ii = i as u8;
        assert((b & !a == 0 && (b >> ii) & 1u8 == 1u8 && ii < 8) ==> (a >> ii) & 1u8 == 1u8)
            by (bit_vector);
    }
}

impl BitfieldData for u16 {
    open spec fn value(self) -> nat {
        self as nat
    }

    open spec fn width() -> nat {
        16 as nat
    }

    open spec fn bit(self, i: nat) -> bool {
        i < 16 as nat && (self >> (i as u16)) & 1u16 == 1u16
    }

    open spec fn union_spec(self, o: Self) -> Self {
        self | o
    }

    open spec fn minus_spec(self, o: Self) -> Self {
        self & !o
    }

    open spec fn meet_spec(self, o: Self) -> Self {
        self & o
    }

    open spec fn toggle_spec(self, o: Self) -> Self {
        self ^ o
    }

    open spec fn shl1_spec(self) -> Self {
        self << 1u16
    }

    open spec fn shr1_spec(self) -> Self {
        self >> 1u16
    }

    fn default_one() -> (r: Self) {
        1
    }

    fn zero_word() -> (r: Self) {
        0
    }

    fn union(self, o: Self) -> (r: Self) {
        self | o
    }

    fn minus(self, o: Self) -> (r: Self) {
        self & !o
    }

    fn meet(self, o: Self) -> (r: Self) {
        self & o
    }

    fn toggle(self, o: Self) -> (r: Self) {
        self ^ o
    }

    fn is_zero(self) -> (r: bool) {
        self == 0
    }

    fn shl1(self) -> (r: Self) {
        self << 1u16
    }

    fn shr1(self) -> (r: Self) {
        self >> 1u16
    }

    fn read_bit(self, pos: Self) -> (r: bool) {
        (self >> pos) & 1u16 == 1u16
    }

    fn with_bit(self, pos: Self, b: bool) -> (r: Self) {
        let mask: u16 = 1u16 << pos;
        let r = if b {
            self | mask
        } else {
            self & !mask
        };
        proof {
            assert forall|i: nat| #[trigger] r.bit(i) == if i == pos as nat { b } else { self.bit(i) } by {
                if i < 16 as nat {
                    let ii = i as u16;
                    assert(((self | (1u16 << pos)) >> ii) & 1u16 == 1u16 <==> ((self >> ii) & 1u16 == 1u16 || ii == pos))
                        by (bit_vector)
                        requires
                            ii < 16,
                            pos < 16,
                    ;
                    assert(((self & !(1u16 << pos)) >> ii) & 1u16 == 1u16 <==> ((self >> ii) & 1u16 == 1u16 && ii != pos))
                        by (bit_vector)
                        requires
                            ii < 16,
                            pos < 16,
                    ;
                }
            }
        }
        r
    }

    proof fn lemma_union_covers(a: Self, b: Self) {
        assert(a & !(a | b) == 0) by (bit_vector);
        assert(b & !(a | b) == 0) by (bit_vector);
    }

    proof fn lemma_minus_self(a: Self) {
        assert(a & !a == 0) by (bit_vector);
    }

    proof fn lemma_outside_bit(a: Self, b: Self, i: nat) {
        let ii = i as u16;
        assert(((b >> ii) & 1u16 == 1u16 && (a >> ii) & 1u16 != 1u16 && ii < 16) ==> b & !a != 0)
            by (bit_vector);
    }

    proof fn lemma_covers_bitwise(a: Self, b: Self, i: nat) {
        let ii = i as u16;
        assert((b & !a == 0 && (b >> ii) & 1u16 == 1u16 && ii < 16) ==> (a >> ii) & 1u16 == 1u16)
            by (bit_vector);
    }
}

impl BitfieldData for u32 {
    open spec fn value(self) -> nat {
        self as nat
    }

    open spec fn width() -> nat {
        32 as nat
    }

    open spec fn bit(self, i: nat) -> bool {
        i < 32 as nat && (self >> (i as u32)) & 1u32 == 1u32
    }

    open spec fn union_spec(self, o: Self) -> Self {
        self | o
    }

    open spec fn minus_spec(self, o: Self) -> Self {
        self & !o
    }

    open spec fn meet_spec(self, o: Self) -> Self {
        self & o
    }

    open spec fn toggle_spec(self, o: Self) -> Self {
        self ^ o
    }

    open spec fn shl1_spec(self) -> Self {
        self << 1u32
    }

    open spec fn shr1_spec(self) -> Self {
        self >> 1u32
    }

    fn default_one() -> (r: Self) {
        1
    }

    fn zero_word() -> (r: Self) {
        0
    }

    fn union(self, o: Self) -> (r: Self) {
        self | o
    }

    fn minus(self, o: Self) -> (r: Self) {
        self & !o
    }

    fn meet(self, o: Self) -> (r: Self) {
        self & o
    }

    fn toggle(self, o: Self) -> (r: Self) {
        self ^ o
    }

    fn is_zero(self) -> (r: bool) {
        self == 0
    }

    fn shl1(self) -> (r: Self) {
        self << 1u32
    }

    fn shr1(self) -> (r: Self) {
        self >> 1u32
    }

    fn read_bit(self, pos: Self) -> (r: bool) {
        (self >> pos) & 1u32 == 1u32
    }

    fn with_bit(self, pos: Self, b: bool) -> (r: Self) {
        let mask: u32 = 1u32 << pos;
        let r = if b {
            self | mask
        } else {
            self & !mask
        };
        proof {
            assert forall|i: nat| #[trigger] r.bit(i) == if i == pos as nat { b } else { self.bit(i) } by {
                if i < 32 as nat {
                    let ii = i as u32;
                    assert(((self | (1u32 << pos)) >> ii) & 1u32 == 1u32 <==> ((self >> ii) & 1u32 == 1u32 || ii == pos))
                        by (bit_vector)
                        requires
                            ii < 32,
                            pos < 32,
                    ;
                    assert(((self & !(1u32 << pos)) >> ii) & 1u32 == 1u32 <==> ((self >> ii) & 1u32 == 1u32 && ii != pos))
                        by (bit_vector)
                        requires
                            ii < 32,
                            pos < 32,
                    ;
                }
            }
        }
        r
    }

    proof fn lemma_union_covers(a: Self, b: Self) {
        assert(a & !(a | b) == 0) by (bit_vector);
        assert(b & !(a | b) == 0) by (bit_vector);
    }

    proof fn lemma_minus_self(a: Self) {
        assert(a & !a == 0) by (bit_vector);
    }

    proof fn lemma_outside_bit(a: Self, b: Self, i: nat) {
        let ii = i as u32;
        assert(((b >> ii) & 1u32 == 1u32 && (a >> ii) & 1u32 != 1u32 && ii < 32) ==> b & !a != 0)
            by (bit_vector);
    }

    proof fn lemma_covers_bitwise(a: Self, b: Self, i: nat) {
        let ii = i as u32;
        assert((b & !a == 0 && (b >> ii) & 1u32 == 1u32 && ii < 32) ==> (a >> ii) & 1u32 == 1u32)
            by (bit_vector);
    }
}

impl BitfieldData for u64 {
    open spec fn value(self) -> nat {
        self as nat
    }

    open spec fn width() -> nat {
        64 as nat
    }

    open spec fn bit(self, i: nat) -> bool {
        i < 64 as nat && (self >> (i as u64)) & 1u64 == 1u64
    }

    open spec fn union_spec(self, o: Self) -> Self {
        self | o
    }

    open spec fn minus_spec(self, o: Self) -> Self {
        self & !o
    }

    open spec fn meet_spec(self, o: Self) -> Self {
        self & o
    }

    open spec fn toggle_spec(self, o: Self) -> Self {
        self ^ o
    }

    open spec fn shl1_spec(self) -> Self {
        self << 1u64
    }

    open spec fn shr1_spec(self) -> Self {
        self >> 1u64
    }

    fn default_one() -> (r: Self) {
        1
    }

    fn zero_word() -> (r: Self) {
        0
    }

    fn union(self, o: Self) -> (r: Self) {
        self | o
    }

    fn minus(self, o: Self) -> (r: Self) {
        self & !o
    }

    fn meet(self, o: Self) -> (r: Self) {
        self & o
    }

    fn toggle(self, o: Self) -> (r: Self) {
        self ^ o
    }

    fn is_zero(self) -> (r: bool) {
        self == 0
    }

    fn shl1(self) -> (r: Self) {
        self << 1u64
    }

    fn shr1(self) -> (r: Self) {
        self >> 1u64
    }

    fn read_bit(self, pos: Self) -> (r: bool) {
        (self >> pos) & 1u64 == 1u64
    }

    fn with_bit(self, pos: Self, b: bool) -> (r: Self) {
        let mask: u64 = 1u64 << pos;
        let r = if b {
            self | mask
        } else {
            self & !mask
        };
        proof {
            assert forall|i: nat| #[trigger] r.bit(i) == if i == pos as nat { b } else { self.bit(i) } by {
                if i < 64 as nat {
                    let ii = i as u64;
                    assert(((self | (1u64 << pos)) >> ii) & 1u64 == 1u64 <==> ((self >> ii) & 1u64 == 1u64 || ii == pos))
                        by (bit_vector)
                        requires
                            ii < 64,
                            pos < 64,
                    ;
                    assert(((self & !(1u64 << pos)) >> ii) & 1u64 == 1u64 <==> ((self >> ii) & 1u64 == 1u64 && ii != pos))
                        by (bit_vector)
                        requires
                            ii < 64,
                            pos < 64,
                    ;
                }
            }
        }
        r
    }

    proof fn lemma_union_covers(a: Self, b: Self) {
        assert(a & !(a | b) == 0) by (bit_vector);
        assert(b & !(a | b) == 0) by (bit_vector);
    }

    proof fn lemma_minus_self(a: Self) {
        assert(a & !a == 0) by (bit_vector);
    }

    proof fn lemma_outside_bit(a: Self, b: Self, i: nat) {
        let ii = i as u64;
        assert(((b >> ii) & 1u64 == 1u64 && (a >> ii) & 1u64 != 1u64 && ii < 64) ==> b & !a != 0)
            by (bit_vector);
    }

    proof fn lemma_covers_bitwise(a: Self, b: Self, i: nat) {
        let ii = i as u64;
        assert((b & !a == 0 && (b >> ii) & 1u64 == 1u64 && ii < 64) ==> (a >> ii) & 1u64 == 1u64)
            by (bit_vector);
    }
}

impl BitfieldData for u128 {
    open spec fn value(self) -> nat {
        self as nat
    }

    open spec fn width() -> nat {
        128 as nat
    }

    open spec fn bit(self, i: nat) -> bool {
        i < 128 as nat && (self >> (i as u128)) & 1u128 == 1u128
    }

    open spec fn union_spec(self, o: Self) -> Self {
        self | o
    }

    open spec fn minus_spec(self, o: Self) -> Self {
        self & !o
    }

    open spec fn meet_spec(self, o: Self) -> Self {
        self & o
    }

    open spec fn toggle_spec(self, o: Self) -> Self {
        self ^ o
    }

    open spec fn shl1_spec(self) -> Self {
        self << 1u128
    }

    open spec fn shr1_spec(self) -> Self {
        self >> 1u128
    }

    fn default_one() -> (r: Self) {
        1
    }

    fn zero_word() -> (r: Self) {
        0
    }

    fn union(self, o: Self) -> (r: Self) {
        self | o
    }

    fn minus(self, o: Self) -> (r: Self) {
        self & !o
    }

    fn meet(self, o: Self) -> (r: Self) {
        self & o
    }

    fn toggle(self, o: Self) -> (r: Self) {
        self ^ o
    }

    fn is_zero(self) -> (r: bool) {
        self == 0
    }

    fn shl1(self) -> (r: Self) {
        self << 1u128
    }

    fn shr1(self) -> (r: Self) {
        self >> 1u128
    }

    fn read_bit(self, pos: Self) -> (r: bool) {
        (self >> pos) & 1u128 == 1u128
    }

    fn with_bit(self, pos: Self, b: bool) -> (r: Self) {
        let mask: u128 = 1u128 << pos;
        let r = if b {
            self | mask
        } else {
            self & !mask
        };
        proof {
            assert forall|i: nat| #[trigger] r.bit(i) == if i == pos as nat { b } else { self.bit(i) } by {
                if i < 128 as nat {
                    let ii = i as u128;
                    assert(((self | (1u128 << pos)) >> ii) & 1u128 == 1u128 <==> ((self >> ii) & 1u128 == 1u128 || ii == pos))
                        by (bit_vector)
                        requires
                            ii < 128,
                            pos < 128,
                    ;
                    assert(((self & !(1u128 << pos)) >> ii) & 1u128 == 1u128 <==> ((self >> ii) & 1u128 == 1u128 && ii != pos))
                        by (bit_vector)
                        requires
                            ii < 128,
                            pos < 128,
                    ;
                }
            }
        }
        r
    }

    proof fn lemma_union_covers(a: Self, b: Self) {
        assert(a & !(a | b) == 0) by (bit_vector);
        assert(b & !(a | b) == 0) by (bit_vector);
    }

    proof fn lemma_minus_self(a: Self) {
        assert(a & !a == 0) by (bit_vector);
    }

    proof fn lemma_outside_bit(a: Self, b: Self, i: nat) {
        let ii = i as u128;
        assert(((b >> ii) & 1u128 == 1u128 && (a >> ii) & 1u128 != 1u128 && ii < 128) ==> b & !a != 0)
            by (bit_vector);
    }

    proof fn lemma_covers_bitwise(a: Self, b: Self, i: nat) {
        let ii = i as u128;
        assert((b & !a == 0 && (b >> ii) & 1u128 == 1u128 && ii < 128) ==> (a >> ii) & 1u128 == 1u128)
            by (bit_vector);
    }
}

impl BitfieldData for usize {
    open spec fn value(self) -> nat {
        self as nat
    }

    open spec fn width() -> nat {
        usize::BITS as nat
    }

    open spec fn bit(self, i: nat) -> bool {
        i < usize::BITS as nat && (self >> (i as usize)) & 1usize == 1usize
    }

    open spec fn union_spec(self, o: Self) -> Self {
        self | o
    }

    open spec fn minus_spec(self, o: Self) -> Self {
        self & !o
    }

    open spec fn meet_spec(self, o: Self) -> Self {
        self & o
    }

    open spec fn toggle_spec(self, o: Self) -> Self {
        self ^ o
    }

    open spec fn shl1_spec(self) -> Self {
        self << 1usize
    }

    open spec fn shr1_spec(self) -> Self {
        self >> 1usize
    }

    fn default_one() -> (r: Self) {
        1
    }

    fn zero_word() -> (r: Self) {
        0
    }

    fn union(self, o: Self) -> (r: Self) {
        self | o
    }

    fn minus(self, o: Self) -> (r: Self) {
        self & !o
    }

    fn meet(self, o: Self) -> (r: Self) {
        self & o
    }

    fn toggle(self, o: Self) -> (r: Self) {
        self ^ o
    }

    fn is_zero(self) -> (r: bool) {
        self == 0
    }

    fn shl1(self) -> (r: Self) {
        self << 1usize
    }

    fn shr1(self) -> (r: Self) {
        self >> 1usize
    }

    fn read_bit(self, pos: Self) -> (r: bool) {
        (self >> pos) & 1usize == 1usize
    }

    fn with_bit(self, pos: Self, b: bool) -> (r: Self) {
        let mask: usize = 1usize << pos;
        let r = if b {
            self | mask
        } else {
            self & !mask
        };
        proof {
            assert forall|i: nat| #[trigger] r.bit(i) == if i == pos as nat { b } else { self.bit(i) } by {
                if i < usize::BITS as nat {
                    let ii = i as usize;
                    assert(((self | (1usize << pos)) >> ii) & 1usize == 1usize <==> ((self >> ii) & 1usize == 1usize || ii == pos))
                        by (bit_vector)
                        requires
                            ii < usize::BITS,
                            pos < usize::BITS,
                    ;
                    assert(((self & !(1usize << pos)) >> ii) & 1usize == 1usize <==> ((self >> ii) & 1usize == 1usize && ii != pos))
                        by (bit_vector)
                        requires
                            ii < usize::BITS,
                            pos < usize::BITS,
                    ;
                }
            }
        }
        r
    }

    proof fn lemma_union_covers(a: Self, b: Self) {
        assert(a & !(a | b) == 0) by (bit_vector);
        assert(b & !(a | b) == 0) by (bit_vector);
    }

    proof fn lemma_minus_self(a: Self) {
        assert(a & !a == 0) by (bit_vector);
    }

    proof fn lemma_outside_bit(a: Self, b: Self, i: nat) {
        let ii = i as usize;
        assert(((b >> ii) & 1usize == 1usize && (a >> ii) & 1usize != 1usize && ii < usize::BITS) ==> b & !a != 0)
            by (bit_vector);
    }

    proof fn lemma_covers_bitwise(a: Self, b: Self, i: nat) {
        let ii = i as usize;
        assert((b & !a == 0 && (b >> ii) & 1usize == 1usize && ii < usize::BITS) ==> (a >> ii) & 1usize == 1usize)
            by (bit_vector);
    }
}

} // verus!
