//! A growable sparse bit set for one owner: bit `i` lives in 128-bit word
//! `i / 128` at offset `i % 128`, and words are allocated as bits are written.
use vstd::prelude::*;

use crate::word::{bit128, lemma_with_bit128, lemma_zero_word, read_bit128, with_bit128, write_bit128};

verus! {

/// Number of bits held by one word of a [`SparseBitfield`].
pub const BLOCK_BITS: usize = 128;

/// Bit `i` of a run of 128-bit words: set only where its word is present and
/// has it set.
pub open spec fn bit_at128(blocks: Seq<u128>, i: nat) -> bool {
    let k = i / 128;
    k < blocks.len() && bit128(blocks[k as int], i % 128)
}

/// `n` all-zero 128-bit words.
pub open spec fn zero_blocks(n: nat) -> Seq<u128> {
    Seq::new(n, |_k: int| 0u128)
}

/// The words before a write of bit `i`, extended with zero words up to and
/// including `i`'s word where they are too short.
pub open spec fn grown128(blocks: Seq<u128>, i: nat) -> Seq<u128> {
    let k = i / 128;
    if k < blocks.len() {
        blocks
    } else {
        blocks + zero_blocks((k + 1 - blocks.len()) as nat)
    }
}

/// The words after writing `b` at bit `i`.
pub open spec fn stored128(blocks: Seq<u128>, i: nat, b: bool) -> Seq<u128> {
    let g = grown128(blocks, i);
    g.update((i / 128) as int, with_bit128(g[(i / 128) as int], i % 128, b))
}

/// A sparse bit set with 128-bit words; bits past the last word read as unset.
pub struct SparseBitfield {
    buffer: Vec<u128>,
}

impl View for SparseBitfield {
    type V = Seq<u128>;

    /// The words of the set, in order.
    closed spec fn view(&self) -> Seq<u128> {
        self.buffer@
    }
}

impl SparseBitfield {
    /// Bit `i` of the set.
    pub open spec fn bit(&self, i: nat) -> bool {
        bit_at128(self@, i)
    }

    /// An empty set with `num` zero words allocated.
    pub fn with_capacity(num: usize) -> (r: Self)
        ensures
            r@ == zero_blocks(num as nat),
    {
        let buffer: Vec<u128> = vec![0u128; num];
        let r = SparseBitfield { buffer };
        assert(r@ =~= zero_blocks(num as nat));
        r
    }

    /// A set holding `bools`: bit `i` is `bools[i]`, every later bit unset,
    /// with `bools.len() / 128 + 1` words.
    pub fn from_bools(bools: &[bool]) -> (r: Self)
        ensures
            r@.len() == bools@.len() / 128 + 1,
            forall|i: nat| i < bools@.len() ==> r.bit(i) == bools@[i as int],
            forall|i: nat| i >= bools@.len() ==> !r.bit(i),
    {
        let mut bitfield = Self::with_capacity(bools.len() / BLOCK_BITS + 1);
        proof {
            assert forall|i: nat| !bitfield.bit(i) by {
                lemma_zero_blocks_unset(bitfield@.len(), i);
            }
        }
        let mut location: usize = 0;
        while location < bools.len()
            invariant
                location <= bools@.len(),
                bitfield@.len() == bools@.len() / 128 + 1,
                forall|i: nat| i < location ==> bitfield.bit(i) == bools@[i as int],
                forall|i: nat| i >= location ==> !bitfield.bit(i),
            decreases bools@.len() - location,
        {
            let ghost before = bitfield;
            bitfield.set(location, bools[location]);
            proof {
                let b = bools@[location as int];
                lemma_stored128_reads_back(before@, location as nat, b);
                assert forall|i: nat| i < location + 1 implies bitfield.bit(i) == bools@[i as int] by {
                    if i != location {
                        lemma_stored128_keeps_others(before@, location as nat, b, i);
                        assert(before.bit(i) == bools@[i as int]);
                    }
                }
                assert forall|i: nat| i >= location + 1 implies !bitfield.bit(i) by {
                    lemma_stored128_keeps_others(before@, location as nat, b, i);
                    assert(!before.bit(i));
                }
            }
            location = location + 1;
        }
        bitfield
    }

    /// Reads bit `location`; a bit whose word is absent reads as unset.
    pub fn get(&self, location: usize) -> (r: bool)
        ensures
            r == self.bit(location as nat),
    {
        let block_pos: usize = location / BLOCK_BITS;
        let bit_pos: usize = location % BLOCK_BITS;
        if block_pos < self.buffer.len() {
            read_bit128(self.buffer[block_pos], bit_pos as u128)
        } else {
            false
        }
    }

    /// Writes `bit` at `location`, first extending the set with zero words up
    /// to `location`'s word when that word is absent.
    pub fn set(&mut self, location: usize, bit: bool)
        ensures
            final(self)@ == stored128(old(self)@, location as nat, bit),
    {
        let block_pos: usize = location / BLOCK_BITS;
        let bit_pos: usize = location % BLOCK_BITS;
        if block_pos < self.buffer.len() {
            let block = write_bit128(self.buffer[block_pos], bit_pos as u128, bit);
            self.buffer.set(block_pos, block);
        } else {
            let ghost start = self@;
            let block = write_bit128(0u128, bit_pos as u128, bit);
            self.buffer.resize(block_pos, 0u128);
            self.buffer.push(block);
            assert(self@ =~= stored128(start, location as nat, bit));
        }
    }

    /// Sets every word to zero, keeping the number of words.
    pub fn clear(&mut self)
        ensures
            final(self)@ == zero_blocks(old(self)@.len()),
    {
        let n = self.buffer.len();
        let mut k: usize = 0;
        while k < n
            invariant
                k <= n,
                self.buffer@.len() == n,
                forall|j: int| 0 <= j < k ==> self.buffer@[j] == 0u128,
            decreases n - k,
        {
            self.buffer.set(k, 0u128);
            k = k + 1;
        }
        assert(self@ =~= zero_blocks(n as nat));
    }
}

impl Default for SparseBitfield {
    /// An empty set with no word allocated.
    fn default() -> (r: Self)
        ensures
            r@ == Seq::<u128>::empty(),
    {
        SparseBitfield::with_capacity(0)
    }
}

/// Zero words hold no set bit.
pub proof fn lemma_zero_blocks_unset(n: nat, i: nat)
    ensures
        !bit_at128(zero_blocks(n), i),
{
    lemma_zero_word(i % 128);
}

/// A bit reads back as the value last written to it.
pub proof fn lemma_stored128_reads_back(blocks: Seq<u128>, i: nat, b: bool)
    ensures
        bit_at128(stored128(blocks, i, b), i) == b,
{
    lemma_with_bit128(grown128(blocks, i)[(i / 128) as int], i % 128, b, i % 128);
}

/// Writing bit `i` changes no other bit.
pub proof fn lemma_stored128_keeps_others(blocks: Seq<u128>, i: nat, b: bool, j: nat)
    requires
        j != i,
    ensures
        bit_at128(stored128(blocks, i, b), j) == bit_at128(blocks, j),
{
    let k = i / 128;
    let g = grown128(blocks, i);
    if j / 128 == k {
        lemma_with_bit128(g[k as int], i % 128, b, j % 128);
        if k >= blocks.len() {
            lemma_zero_word(j % 128);
        }
    } else if j / 128 < g.len() && j / 128 >= blocks.len() {
        lemma_zero_word(j % 128);
    }
}

} // verus!
