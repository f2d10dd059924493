//! A growable sparse bit set that many threads can share: its block store
//! (see [`crate::blocks`]) sits behind one reader-writer lock.
use vstd::prelude::*;
use vstd::rwlock::{RwLock, RwLockPredicate};

use crate::blocks::{from_bools, lemma_stored_len, load_bit, store_bit, zero_all, zeroed};

verus! {

/// What the lock keeps true of the store: it never has fewer words than it
/// was created with.
pub struct BlockFloor {
    pub min: nat,
}

impl RwLockPredicate<Vec<u64>> for BlockFloor {
    open spec fn inv(self, v: Vec<u64>) -> bool {
        v@.len() >= self.min
    }
}

/// A sparse bit set with 64-bit words, shared between threads by reference.
/// Reads take shared access to the store; writes and clearing take exclusive
/// access, so two writes to bits of the same word never overwrite each other.
pub struct AtomicSparseBitfield {
    buffer: RwLock<Vec<u64>, BlockFloor>,
}

impl AtomicSparseBitfield {
    /// The number of words that the store is never shorter than.
    pub closed spec fn min_blocks(&self) -> nat {
        self.buffer.pred().min
    }

    /// An empty set with `capacity` zero words allocated.
    pub fn with_capacity(capacity: usize) -> (r: Self)
        ensures
            r.min_blocks() == capacity,
    {
        let blocks = zeroed(capacity);
        AtomicSparseBitfield { buffer: RwLock::new(blocks, Ghost(BlockFloor { min: capacity as nat })) }
    }

    /// A set holding `bools` (bit `i` is `bools[i]`), with
    /// `bools.len() / 64 + 1` words. The store is filled before anyone else
    /// can see it.
    pub fn from_bools(bools: &[bool]) -> (r: Self)
        ensures
            r.min_blocks() == bools@.len() / 64 + 1,
    {
        let blocks = from_bools(bools);
        let ghost min = bools@.len() / 64 + 1;
        AtomicSparseBitfield { buffer: RwLock::new(blocks, Ghost(BlockFloor { min })) }
    }

    /// Reads bit `location` under shared access, as
    /// [`crate::blocks::load_bit`] does on the store; a bit whose word is
    /// absent reads as unset.
    pub fn get(&self, location: usize) -> bool {
        let readable = self.buffer.acquire_read();
        let bit = load_bit(readable.borrow(), location);
        readable.release_read();
        bit
    }

    /// Writes `bit` at `location` under exclusive access, as
    /// [`crate::blocks::store_bit`] does on the store, growing it with zero
    /// words up to `location`'s word where that word is absent.
    pub fn set(&self, location: usize, bit: bool) {
        let (mut writable, handle) = self.buffer.acquire_write();
        let ghost before = writable@;
        store_bit(&mut writable, location, bit);
        proof {
            lemma_stored_len(before, location as nat, bit);
        }
        handle.release_write(writable);
    }

    /// Sets every word of the store to zero under exclusive access, keeping
    /// the number of words, as [`crate::blocks::zero_all`] does.
    pub fn clear(&self) {
        let (mut writable, handle) = self.buffer.acquire_write();
        zero_all(&mut writable);
        handle.release_write(writable);
    }
}

impl Default for AtomicSparseBitfield {
    /// An empty set with no word allocated.
    fn default() -> (r: Self)
        ensures
            r.min_blocks() == 0,
    {
        AtomicSparseBitfield::with_capacity(0)
    }
}

} // verus!
