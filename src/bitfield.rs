//! A dense bit set over one unsigned word: its members are the word's set
//! bits.
use vstd::prelude::*;

use crate::data::{covers, BitfieldData};

verus! {

/// A dense bit set held in one word of type `T`.
#[derive(Clone, Copy, Debug, PartialEq, Eq, PartialOrd, Ord, Hash)]
pub struct Bitfield<T: BitfieldData> {
    inner: T,
}

impl<T: BitfieldData> View for Bitfield<T> {
    type V = T;

    /// The word that holds the members.
    closed spec fn view(&self) -> T {
        self.inner
    }
}

impl<T: BitfieldData> Bitfield<T> {
    /// The empty set.
    pub fn zero() -> (r: Self)
        ensures
            r@.value() == 0,
    {
        Bitfield { inner: T::zero_word() }
    }

    /// The set holding bit 0 alone.
    pub fn one() -> (r: Self)
        ensures
            r@.value() == 1,
    {
        Bitfield { inner: T::default_one() }
    }

    /// The empty set.
    pub fn new() -> (r: Self)
        ensures
            r@.value() == 0,
    {
        Bitfield { inner: T::zero_word() }
    }

    /// The set whose members are the bits of `n`.
    pub fn from_num(n: T) -> (r: Self)
        ensures
            r@ == n,
    {
        Bitfield { inner: n }
    }

    /// The word that holds the members.
    pub fn inner(&self) -> (r: &T)
        ensures
            *r == self@,
    {
        &self.inner
    }

    /// Shifts every member up by one place; the top one is dropped.
    pub fn increment(&mut self)
        ensures
            final(self)@ == old(self)@.shl1_spec(),
    {
        self.inner = self.inner.shl1();
    }

    /// Shifts every member down by one place; the one at bit 0 is dropped.
    pub fn decrement(&mut self)
        ensures
            final(self)@ == old(self)@.shr1_spec(),
    {
        self.inner = self.inner.shr1();
    }

    /// The union of both sets.
    pub fn add(&self, other: &Self) -> (r: Bitfield<T>)
        ensures
            r@ == self@.union_spec(other@),
    {
        Bitfield { inner: self.inner.union(other.inner) }
    }

    /// `self` without the members of `other`, where `self` holds all of them;
    /// otherwise `None`, as nothing is removed in part.
    pub fn remove(&self, other: &Self) -> (r: Option<Bitfield<T>>)
        ensures
            r.is_some() == covers(self@, other@),
            r.is_some() ==> r.unwrap()@ == self@.minus_spec(other@),
    {
        if !self.contains(other) {
            return None;
        }
        Some(Bitfield { inner: self.inner.minus(other.inner) })
    }

    /// Whether every member of `other` is a member of `self`; the empty set is
    /// contained in every set.
    pub fn contains(&self, other: &Self) -> (r: bool)
        ensures
            r == covers(self@, other@),
    {
        other.inner.minus(self.inner).is_zero()
    }

    /// Whether the set has no member.
    pub fn empty(&self) -> (r: bool)
        ensures
            r == (self@.value() == 0),
    {
        self.inner.is_zero()
    }

    /// Whether bit `position` is a member.
    pub fn read(&self, position: T) -> (r: bool)
        requires
            position.value() < T::width(),
        ensures
            r == self@.bit(position.value()),
    {
        self.inner.read_bit(position)
    }

    /// Makes bit `position` a member (`bit` true) or not a member (`bit`
    /// false); every other bit stays as it was.
    pub fn write(&mut self, position: T, bit: bool)
        requires
            position.value() < T::width(),
        ensures
            forall|i: nat|
                #[trigger] final(self)@.bit(i) == if i == position.value() {
                    bit
                } else {
                    old(self)@.bit(i)
                },
    {
        self.inner = self.inner.with_bit(position, bit);
    }
}

impl<T: BitfieldData> Default for Bitfield<T> {
    /// The empty set.
    fn default() -> (r: Self)
        ensures
            r@.value() == 0,
    {
        Bitfield::new()
    }
}

impl<T: BitfieldData> From<T> for Bitfield<T> {
    /// The set whose members are the bits of `t`.
    fn from(t: T) -> (r: Self) {
        Bitfield { inner: t }
    }
}

impl<T: BitfieldData> vstd::std_specs::convert::FromSpecImpl<T> for Bitfield<T> {
    open spec fn obeys_from_spec() -> bool {
        true
    }

    closed spec fn from_spec(t: T) -> Self {
        Bitfield { inner: t }
    }
}

impl<T: BitfieldData> core::ops::BitOr for Bitfield<T> {
    type Output = Bitfield<T>;

    /// The union of both sets.
    fn bitor(self, rhs: Self) -> (r: Bitfield<T>)
        ensures
            r@ == self@.union_spec(rhs@),
    {
        Bitfield { inner: self.inner.union(rhs.inner) }
    }
}

impl<T: BitfieldData> vstd::std_specs::ops::BitOrSpecImpl for Bitfield<T> {
    open spec fn obeys_bitor_spec() -> bool {
        true
    }

    open spec fn bitor_req(self, rhs: Self) -> bool {
        true
    }

    closed spec fn bitor_spec(self, rhs: Self) -> Bitfield<T> {
        Bitfield { inner: self.inner.union_spec(rhs.inner) }
    }
}

impl<T: BitfieldData> core::ops::BitAnd for Bitfield<T> {
    type Output = Bitfield<T>;

    /// The members that both sets hold.
    fn bitand(self, rhs: Self) -> (r: Bitfield<T>)
        ensures
            r@ == self@.meet_spec(rhs@),
    {
        Bitfield { inner: self.inner.meet(rhs.inner) }
    }
}

impl<T: BitfieldData> vstd::std_specs::ops::BitAndSpecImpl for Bitfield<T> {
    open spec fn obeys_bitand_spec() -> bool {
        true
    }

    open spec fn bitand_req(self, rhs: Self) -> bool {
        true
    }

    closed spec fn bitand_spec(self, rhs: Self) -> Bitfield<T> {
        Bitfield { inner: self.inner.meet_spec(rhs.inner) }
    }
}

impl<T: BitfieldData> core::ops::BitXor for Bitfield<T> {
    type Output = Bitfield<T>;

    /// The members that exactly one of the sets holds.
    fn bitxor(self, rhs: Self) -> (r: Bitfield<T>)
        ensures
            r@ == self@.toggle_spec(rhs@),
    {
        Bitfield { inner: self.inner.toggle(rhs.inner) }
    }
}

impl<T: BitfieldData> vstd::std_specs::ops::BitXorSpecImpl for Bitfield<T> {
    open spec fn obeys_bitxor_spec() -> bool {
        true
    }

    open spec fn bitxor_req(self, rhs: Self) -> bool {
        true
    }

    closed spec fn bitxor_spec(self, rhs: Self) -> Bitfield<T> {
        Bitfield { inner: self.inner.toggle_spec(rhs.inner) }
    }
}

/// The set made from a word by `from` has the word's bits as its members.
pub proof fn lemma_from_view<T: BitfieldData>(t: T)
    ensures
        <Bitfield<T> as vstd::std_specs::convert::FromSpec<T>>::from_spec(t)@ == t,
{
}

/// The union of two sets contains each of them.
pub proof fn lemma_add_contains_both<T: BitfieldData>(a: T, b: T)
    ensures
        covers(a.union_spec(b), a),
        covers(a.union_spec(b), b),
{
    T::lemma_union_covers(a, b);
}

/// A set contains itself, and removing it from itself leaves the empty set.
pub proof fn lemma_remove_self_empty<T: BitfieldData>(a: T)
    ensures
        covers(a, a),
        a.minus_spec(a).value() == 0,
{
    T::lemma_minus_self(a);
}

/// A set with a member outside `a` is not contained in `a`.
pub proof fn lemma_outside_member_not_contained<T: BitfieldData>(a: T, b: T, i: nat)
    requires
        b.bit(i),
        !a.bit(i),
    ensures
        !covers(a, b),
{
    T::lemma_outside_bit(a, b, i);
}

/// Containment means that every member of `b` is a member of `a`.
pub proof fn lemma_contained_members<T: BitfieldData>(a: T, b: T, i: nat)
    requires
        covers(a, b),
        b.bit(i),
    ensures
        a.bit(i),
{
    T::lemma_covers_bitwise(a, b, i);
}

} // verus!
