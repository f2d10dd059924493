//! A dense bit set of 64 members held in one atomic word.
use vstd::prelude::*;
use std::sync::atomic::{AtomicU64, Ordering};

use crate::data::{covers, BitfieldData};

verus! {

/// A dense 64-bit bit set in an atomic word, readable from many threads.
/// Its members can be read through a shared reference; replacing them takes
/// a unique one, so the word only changes where the set is rebuilt. The set
/// operations work on the word as [`BitfieldData`] for `u64` gives them.
pub struct AtomicBitfieldU64 {
    bitfield: AtomicU64,
    /// The word stored in `bitfield`: set beside every store into it.
    value: Ghost<u64>,
}

impl View for AtomicBitfieldU64 {
    type V = u64;

    /// The word that holds the members.
    closed spec fn view(&self) -> u64 {
        self.value@
    }
}

impl AtomicBitfieldU64 {
    /// An empty set.
    pub fn new() -> (r: Self)
        ensures
            r@ == 0,
    {
        Self::from_num(0)
    }

    /// The set holding bit 0 alone.
    pub fn new_one() -> (r: Self)
        ensures
            r@ == 1,
    {
        Self::from_num(1)
    }

    /// The set whose members are the bits of `n`.
    ///
    /// Relies on `AtomicU64::new`: the atomic starts out holding `n`.
    #[verifier::external_body]
    pub fn from_num(n: u64) -> (r: Self)
        ensures
            r@ == n,
    {
        AtomicBitfieldU64 { bitfield: AtomicU64::new(n), value: Ghost(n) }
    }

    /// Replaces the members with the bits of `bitfield`.
    pub fn set_bitfield(&mut self, bitfield: u64)
        ensures
            final(self)@ == bitfield,
    {
        *self = Self::from_num(bitfield);
    }

    /// Relies on `AtomicU64::load`: it returns the last value stored, and
    /// only `from_num` stores into the atomic.
    #[verifier::external_body]
    fn load_word(&self) -> (r: u64)
        ensures
            r == self@,
    {
        self.bitfield.load(Ordering::SeqCst)
    }

    /// The members as a word.
    pub fn bitfield(&self) -> (r: u64)
        ensures
            r == self@,
    {
        self.load_word()
    }

    /// A new set holding the members of both.
    pub fn add(&self, other: &Self) -> (r: Self)
        ensures
            r@ == self@.union_spec(other@),
    {
        Self::from_num(self.bitfield().union(other.bitfield()))
    }

    /// A new set holding the members of `self` outside `other`, where `self`
    /// holds every member of `other`; otherwise `None`, as nothing is removed
    /// in part.
    pub fn remove(&self, other: &Self) -> (r: Option<Self>)
        ensures
            r.is_some() == covers(self@, other@),
            r.is_some() ==> r.unwrap()@ == self@.minus_spec(other@),
    {
        let a = self.bitfield();
        let b = other.bitfield();
        if b.minus(a).is_zero() {
            Some(Self::from_num(a.minus(b)))
        } else {
            None
        }
    }

    /// Whether every member of `other` is a member of `self`; the empty set is
    /// contained in every set.
    pub fn contains(&self, other: &Self) -> (r: bool)
        ensures
            r == covers(self@, other@),
    {
        other.bitfield().minus(self.bitfield()).is_zero()
    }

    /// Whether the set has no member.
    pub fn empty(&self) -> (r: bool)
        ensures
            r == (self@ == 0),
    {
        self.bitfield().is_zero()
    }
}

impl Default for AtomicBitfieldU64 {
    /// An empty set.
    fn default() -> (r: Self)
        ensures
            r@ == 0,
    {
        Self::new()
    }
}

} // verus!
