//! The block store of the shared sparse bit set: a run of 64-bit words, where
//! bit `i` lives in word `i / 64` at offset `i % 64`. A word past the end of
//! the run stands for an all-zero word.
use vstd::prelude::*;

use crate::word::{bit64, lemma_with_bit64, lemma_zero_word, read_bit64, with_bit64, write_bit64};

verus! {

/// Number of bits held by one word of the store.
pub const WORD_BITS: usize = 64;

/// Bit `i` of a store: set only where its word is present and has it set.
pub open spec fn bit_at(blocks: Seq<u64>, i: nat) -> bool {
    let k = i / 64;
    k < blocks.len() && bit64(blocks[k as int], i % 64)
}

/// `n` all-zero words.
pub open spec fn zero_words(n: nat) -> Seq<u64> {
    Seq::new(n, |_k: int| 0u64)
}

/// The store before a write of bit `i`, extended with zero words up to and
/// including `i`'s word where it is too short.
pub open spec fn stored_base(blocks: Seq<u64>, i: nat) -> Seq<u64> {
    let k = i / 64;
    if k < blocks.len() {
        blocks
    } else {
        blocks + zero_words((k + 1 - blocks.len()) as nat)
    }
}

/// The store after writing `b` at bit `i`.
pub open spec fn stored(blocks: Seq<u64>, i: nat, b: bool) -> Seq<u64> {
    let g = stored_base(blocks, i);
    g.update((i / 64) as int, with_bit64(g[(i / 64) as int], i % 64, b))
}

/// The store after the writes of `writes` in order, each a bit index and the
/// value written there.
pub open spec fn stored_all(blocks: Seq<u64>, writes: Seq<(nat, bool)>) -> Seq<u64>
    decreases writes.len(),
{
    if writes.len() == 0 {
        blocks
    } else {
        let last = writes.last();
        stored(stored_all(blocks, writes.drop_last()), last.0, last.1)
    }
}

/// A bit that no write touched keeps the value it had.
pub proof fn lemma_unwritten_keeps(blocks: Seq<u64>, writes: Seq<(nat, bool)>, i: nat)
    requires
        forall|k: int| 0 <= k < writes.len() ==> writes[k].0 != i,
    ensures
        bit_at(stored_all(blocks, writes), i) == bit_at(blocks, i),
    decreases writes.len(),
{
    if writes.len() > 0 {
        let rest = writes.drop_last();
        lemma_unwritten_keeps(blocks, rest, i);
        lemma_stored_keeps_others(stored_all(blocks, rest), writes.last().0, writes.last().1, i);
    }
}

/// On a fresh store of zero words, a bit that no write touched reads as unset.
pub proof fn lemma_unwritten_unset(n: nat, writes: Seq<(nat, bool)>, i: nat)
    requires
        forall|k: int| 0 <= k < writes.len() ==> writes[k].0 != i,
    ensures
        !bit_at(stored_all(zero_words(n), writes), i),
{
    lemma_unwritten_keeps(zero_words(n), writes, i);
    lemma_zero_words_unset(n, i);
}

/// A store of zero words holds no set bit.
pub proof fn lemma_zero_words_unset(n: nat, i: nat)
    ensures
        !bit_at(zero_words(n), i),
{
    lemma_zero_word(i % 64);
}

/// A bit reads back as the value last written to it.
pub proof fn lemma_stored_reads_back(blocks: Seq<u64>, i: nat, b: bool)
    ensures
        bit_at(stored(blocks, i, b), i) == b,
{
    lemma_with_bit64(stored_base(blocks, i)[(i / 64) as int], i % 64, b, i % 64);
}

/// Writing bit `i` changes no other bit.
pub proof fn lemma_stored_keeps_others(blocks: Seq<u64>, i: nat, b: bool, j: nat)
    requires
        j != i,
    ensures
        bit_at(stored(blocks, i, b), j) == bit_at(blocks, j),
{
    let k = i / 64;
    let g = stored_base(blocks, i);
    if j / 64 == k {
        lemma_with_bit64(g[k as int], i % 64, b, j % 64);
        if k >= blocks.len() {
            lemma_zero_word(j % 64);
        }
    } else if j / 64 < g.len() && j / 64 >= blocks.len() {
        lemma_zero_word(j % 64);
    }
}

/// Writing a bit never shortens the store; it grows only to reach the bit's word.
pub proof fn lemma_stored_len(blocks: Seq<u64>, i: nat, b: bool)
    ensures
        stored(blocks, i, b).len() == if i / 64 < blocks.len() {
            blocks.len()
        } else {
            i / 64 + 1
        },
{
}

/// A store of `n` zero words.
pub fn zeroed(n: usize) -> (r: Vec<u64>)
    ensures
        r@ == zero_words(n as nat),
{
    let mut r: Vec<u64> = Vec::with_capacity(n);
    let mut k: usize = 0;
    while k < n
        invariant
            k <= n,
            r@ == zero_words(k as nat),
        decreases n - k,
    {
        r.push(0u64);
        k = k + 1;
        assert(r@ =~= zero_words(k as nat));
    }
    r
}

/// Reads bit `location`; a bit whose word is absent reads as unset.
pub fn load_bit(blocks: &Vec<u64>, location: usize) -> (r: bool)
    ensures
        r == bit_at(blocks@, location as nat),
{
    let block_pos: usize = location / WORD_BITS;
    let bit_pos: usize = location % WORD_BITS;
    if block_pos < blocks.len() {
        read_bit64(blocks[block_pos], bit_pos as u64)
    } else {
        false
    }
}

/// Writes `bit` at `location`, first extending the store with zero words when
/// `location`'s word is absent.
pub fn store_bit(blocks: &mut Vec<u64>, location: usize, bit: bool)
    ensures
        final(blocks)@ == stored(old(blocks)@, location as nat, bit),
{
    let block_pos: usize = location / WORD_BITS;
    let bit_pos: usize = location % WORD_BITS;
    if block_pos < blocks.len() {
        let w = write_bit64(blocks[block_pos], bit_pos as u64, bit);
        blocks.set(block_pos, w);
    } else {
        let ghost start = blocks@;
        while blocks.len() < block_pos
            invariant
                start.len() <= blocks@.len() <= block_pos,
                blocks@ == start + zero_words((blocks@.len() - start.len()) as nat),
            decreases block_pos - blocks@.len(),
        {
            blocks.push(0u64);
            assert(blocks@ =~= start + zero_words((blocks@.len() - start.len()) as nat));
        }
        blocks.push(write_bit64(0u64, bit_pos as u64, bit));
        assert(blocks@ =~= stored(start, location as nat, bit));
    }
}

/// Sets every word of the store to zero, keeping its length.
pub fn zero_all(blocks: &mut Vec<u64>)
    ensures
        final(blocks)@ == zero_words(old(blocks)@.len()),
{
    let n = blocks.len();
    let mut k: usize = 0;
    while k < n
        invariant
            k <= n,
            blocks@.len() == n,
            forall|j: int| 0 <= j < k ==> blocks@[j] == 0u64,
        decreases n - k,
    {
        blocks.set(k, 0u64);
        k = k + 1;
    }
    assert(blocks@ =~= zero_words(n as nat));
}

/// A store for `bools`: `bools.len() / 64 + 1` words, bit `i` set exactly where
/// `bools[i]` is true.
pub fn from_bools(bools: &[bool]) -> (r: Vec<u64>)
    ensures
        r@.len() == bools@.len() / 64 + 1,
        forall|i: nat| i < bools@.len() ==> bit_at(r@, i) == bools@[i as int],
        forall|i: nat| i >= bools@.len() ==> !bit_at(r@, i),
{
    let mut r = zeroed(bools.len() / WORD_BITS + 1);
    proof {
        assert forall|i: nat| !bit_at(r@, i) by {
            lemma_zero_words_unset(r@.len(), i);
        }
    }
    let mut location: usize = 0;
    while location < bools.len()
        invariant
            location <= bools@.len(),
            r@.len() == bools@.len() / 64 + 1,
            forall|i: nat| i < location ==> bit_at(r@, i) == bools@[i as int],
            forall|i: nat| i >= location ==> !bit_at(r@, i),
        decreases bools@.len() - location,
    {
        let ghost before = r@;
        store_bit(&mut r, location, bools[location]);
        proof {
            lemma_stored_len(before, location as nat, bools@[location as int]);
            lemma_stored_reads_back(before, location as nat, bools@[location as int]);
            assert forall|i: nat| i != location implies bit_at(r@, i) == bit_at(before, i) by {
                lemma_stored_keeps_others(before, location as nat, bools@[location as int], i);
            }
            assert forall|i: nat| i >= location + 1 implies !bit_at(r@, i) by {
                lemma_stored_keeps_others(before, location as nat, bools@[location as int], i);
            }
        }
        location = location + 1;
    }
    r
}

} // verus!
