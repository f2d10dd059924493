//! Single words of bits: reading one bit, and writing one bit while keeping
//! every other.
use vstd::prelude::*;

verus! {

/// Bit `o` of a 64-bit word: `(w >> o) & 1`.
pub open spec fn bit64(w: u64, o: nat) -> bool {
    o < 64 && (w >> (o as u64)) & 1u64 == 1u64
}

/// Bit `o` of a 128-bit word: `(w >> o) & 1`.
pub open spec fn bit128(w: u128, o: nat) -> bool {
    o < 128 && (w >> (o as u128)) & 1u128 == 1u128
}

/// `w` with bit `o` ORed in (`b` true) or masked out (`b` false).
pub open spec fn with_bit64(w: u64, o: nat, b: bool) -> u64 {
    if b {
        w | (1u64 << (o as u64))
    } else {
        w & !(1u64 << (o as u64))
    }
}

/// `w` with bit `o` ORed in (`b` true) or masked out (`b` false).
pub open spec fn with_bit128(w: u128, o: nat, b: bool) -> u128 {
    if b {
        w | (1u128 << (o as u128))
    } else {
        w & !(1u128 << (o as u128))
    }
}

/// Writing bit `o` makes it read back as `b` and leaves every other bit as it was.
pub proof fn lemma_with_bit64(w: u64, o: nat, b: bool, p: nat)
    requires
        o < 64,
    ensures
        bit64(with_bit64(w, o, b), p) == if p == o { b } else { bit64(w, p) },
{
    if p < 64 {
        let oo = o as u64;
        let pp = p as u64;
        assert(((w | (1u64 << oo)) >> pp) & 1u64 == if pp == oo { 1u64 } else { (w >> pp) & 1u64 })
            by (bit_vector)
            requires
                oo < 64,
                pp < 64,
        ;
        assert(((w & !(1u64 << oo)) >> pp) & 1u64 == if pp == oo { 0u64 } else { (w >> pp) & 1u64 })
            by (bit_vector)
            requires
                oo < 64,
                pp < 64,
        ;
    }
}

/// Writing bit `o` makes it read back as `b` and leaves every other bit as it was.
pub proof fn lemma_with_bit128(w: u128, o: nat, b: bool, p: nat)
    requires
        o < 128,
    ensures
        bit128(with_bit128(w, o, b), p) == if p == o { b } else { bit128(w, p) },
{
    if p < 128 {
        let oo = o as u128;
        let pp = p as u128;
        assert(((w | (1u128 << oo)) >> pp) & 1u128 == if pp == oo { 1u128 } else { (w >> pp) & 1u128 })
            by (bit_vector)
            requires
                oo < 128,
                pp < 128,
        ;
        assert(((w & !(1u128 << oo)) >> pp) & 1u128 == if pp == oo { 0u128 } else { (w >> pp) & 1u128 })
            by (bit_vector)
            requires
                oo < 128,
                pp < 128,
        ;
    }
}

/// The all-zero word has no bit set.
pub proof fn lemma_zero_word(p: nat)
    ensures
        !bit64(0u64, p),
        !bit128(0u128, p),
{
    if p < 64 {
        let pp = p as u64;
        assert((0u64 >> pp) & 1u64 == 0u64) by (bit_vector);
    }
    if p < 128 {
        let pp = p as u128;
        assert((0u128 >> pp) & 1u128 == 0u128) by (bit_vector);
    }
}

/// Reads bit `o` of `w`.
pub fn read_bit64(w: u64, o: u64) -> (r: bool)
    requires
        o < 64,
    ensures
        r == bit64(w, o as nat),
{
    (w >> o) & 1u64 == 1u64
}

/// Reads bit `o` of `w`.
pub fn read_bit128(w: u128, o: u128) -> (r: bool)
    requires
        o < 128,
    ensures
        r == bit128(w, o as nat),
{
    (w >> o) & 1u128 == 1u128
}

/// Sets (`b` true) or clears (`b` false) bit `o` of `w`.
pub fn write_bit64(w: u64, o: u64, b: bool) -> (r: u64)
    requires
        o < 64,
    ensures
        r == with_bit64(w, o as nat, b),
{
    let mask: u64 = 1u64 << o;
    if b {
        w | mask
    } else {
        w & !mask
    }
}

/// Sets (`b` true) or clears (`b` false) bit `o` of `w`.
pub fn write_bit128(w: u128, o: u128, b: bool) -> (r: u128)
    requires
        o < 128,
    ensures
        r == with_bit128(w, o as nat, b),
{
    let mask: u128 = 1u128 << o;
    if b {
        w | mask
    } else {
        w & !mask
    }
}

} // verus!
