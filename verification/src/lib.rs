//! A fixed-capacity bit set over any type that can store bits.
//!
//! [`BitSet`] wraps a store: an unsigned integer, an array of stores, or a
//! reference or box that points to one. Every operation is stated over the
//! bits of the set as a sequence of booleans, index 0 being the least
//! significant bit.
mod array;
pub mod bit_fmt;
pub mod iter;
pub mod model;
pub mod ops;
mod ptr;
pub mod store;
mod word128;
mod word16;
mod word32;
mod word64;
mod word8;
mod wordsize;

use crate::model::{
    count_true, difference_bits, intersect_bits, lemma_negate_twice, lemma_uniform_count,
    negate_bits, ones_below, symmetric_difference_bits, uniform, union_bits,
};
use crate::store::{BitStore, BitStoreClone, BitStoreConst, BitStoreMut, DefaultIsEmpty};
use vstd::prelude::*;

verus! {

/// A compact data structure for storing bits.
#[derive(Clone, Copy, Debug, PartialEq, Eq, PartialOrd, Ord, Hash)]
pub struct BitSet<S: BitStore = usize> {
    bits: S,
}

impl<S: BitStore> View for BitSet<S> {
    type V = Seq<bool>;

    /// The bits of the set, index 0 first.
    closed spec fn view(&self) -> Seq<bool> {
        self.bits.bitseq()
    }
}

impl<S: DefaultIsEmpty> Default for BitSet<S> {
    /// The set over the default value of the store, which holds no bit.
    #[inline]
    fn default() -> (r: Self)
        ensures
            r@ == uniform(S::spec_bits(), false),
            count_true(r@) == 0,
    {
        let bits = S::default();
        proof {
            S::lemma_default_is_empty(bits);
            lemma_uniform_count(S::spec_bits());
        }
        Self { bits }
    }
}

impl<S: BitStoreConst> BitSet<S> {
    /// Creates a new `BitSet` with all bits set to 0.
    /// This is equivalent to [BitSet::empty].
    #[inline]
    pub fn new() -> (r: Self)
        ensures
            r@ == uniform(S::spec_bits(), false),
            count_true(r@) == 0,
    {
        Self::empty()
    }

    /// Creates a new `BitSet` with all bits set to 0.
    #[inline]
    pub fn empty() -> (r: Self)
        ensures
            r@ == uniform(S::spec_bits(), false),
            count_true(r@) == 0,
    {
        proof {
            lemma_uniform_count(S::spec_bits());
        }
        Self { bits: S::empty() }
    }

    /// Creates a new `BitSet` with all bits set to 1.
    #[inline]
    pub fn full() -> (r: Self)
        ensures
            r@ == uniform(S::spec_bits(), true),
            count_true(r@) == S::spec_bits(),
    {
        proof {
            lemma_uniform_count(S::spec_bits());
        }
        Self { bits: S::full() }
    }
}

impl<S: BitStore> BitSet<S> {
    /// A set has as many bits as its store is wide.
    pub proof fn lemma_len(&self)
        ensures
            self@.len() == S::spec_bits(),
    {
        self.bits.lemma_width();
    }

    /// Gets the value of the bit at the specified index, or `None` if the
    /// index is out of bounds.
    #[inline]
    pub fn get(&self, index: u32) -> (r: Option<bool>)
        requires
            S::spec_bits() <= u32::MAX,
        ensures
            r == if index < S::spec_bits() {
                Some(self@[index as int])
            } else {
                None
            },
    {
        if index >= S::bits() {
            None
        } else {
            Some(self.bits.get(index))
        }
    }

    /// Gets the value of the bit at the specified index, which the caller
    /// knows to be in bounds.
    #[inline]
    pub fn get_unchecked(&self, index: u32) -> (r: bool)
        requires
            S::spec_bits() <= u32::MAX,
            index < S::spec_bits(),
        ensures
            r == self@[index as int],
    {
        self.bits.get(index)
    }

    /// Returns the number of bits in the `BitSet`.
    #[inline]
    pub fn len(&self) -> (r: u32)
        requires
            S::spec_bits() <= u32::MAX,
        ensures
            r == S::spec_bits(),
            r == self@.len(),
    {
        proof {
            self.bits.lemma_width();
        }
        S::bits()
    }

    /// Returns `true` if the `BitSet` is empty, i.e., all bits are unset.
    #[inline]
    pub fn is_empty(&self) -> (r: bool)
        requires
            S::spec_bits() <= u32::MAX,
        ensures
            r == (count_true(self@) == 0),
    {
        self.bits.is_empty()
    }

    /// Returns `true` if the `BitSet` is full, i.e., all bits are set.
    #[inline]
    pub fn is_full(&self) -> (r: bool)
        requires
            S::spec_bits() <= u32::MAX,
        ensures
            r == (count_true(self@) == self@.len()),
    {
        proof {
            self.bits.lemma_width();
        }
        self.bits.is_full()
    }

    /// Returns `true` if the `BitSet` contains any set bits.
    #[inline]
    pub fn any(&self) -> (r: bool)
        requires
            S::spec_bits() <= u32::MAX,
        ensures
            r == (count_true(self@) != 0),
    {
        !self.bits.is_empty()
    }

    /// Returns a walk over the bits in the `BitSet` that borrows the set.
    #[inline]
    pub fn iter(&self) -> (r: iter::Bits<&S>)
        requires
            S::spec_bits() <= u32::MAX,
        ensures
            r.wf(),
            r.store() == self@,
            r.front() == 0,
            r.back() == S::spec_bits(),
            r@ == self@,
    {
        iter::Bits::new(&self.bits)
    }

    /// Returns a walk over the bits in the `BitSet` that owns the store.
    #[inline]
    pub fn into_iter(self) -> (r: iter::Bits<S>)
        requires
            S::spec_bits() <= u32::MAX,
        ensures
            r.wf(),
            r.store() == self@,
            r.front() == 0,
            r.back() == S::spec_bits(),
            r@ == self@,
    {
        iter::Bits::new(self.bits)
    }

    /// Returns the indices of the set bits in the `BitSet`, in ascending
    /// order.
    pub fn ones(&self) -> (r: Vec<u32>)
        requires
            S::spec_bits() <= u32::MAX,
        ensures
            r@ == ones_below(self@, S::spec_bits()),
    {
        let mut out: Vec<u32> = Vec::new();
        let n = S::bits();
        let mut i: u32 = 0;
        while i < n
            invariant
                i <= n == S::spec_bits(),
                out@ == ones_below(self@, i as nat),
            decreases n - i,
        {
            if self.bits.get(i) {
                out.push(i);
            }
            i += 1;
        }
        out
    }

    /// Returns the indices of the set bits in the `BitSet`, in ascending
    /// order, and gives the set up.
    pub fn into_ones(self) -> (r: Vec<u32>)
        requires
            S::spec_bits() <= u32::MAX,
        ensures
            r@ == ones_below(self@, S::spec_bits()),
    {
        self.ones()
    }

    /// Renders the set as a binary literal, most significant bit first.
    pub fn to_binary_string(&self) -> (r: String)
        requires
            S::spec_bits() <= u32::MAX,
        ensures
            r@ == bit_fmt::binary_literal(self@),
    {
        bit_fmt::format_binary(&self.bits)
    }
}

impl<S: BitStoreMut> BitSet<S> {
    /// Sets the bit at the specified index, and returns its previous
    /// value. An index out of bounds changes nothing and gives `None`.
    #[inline]
    pub fn set(&mut self, index: u32) -> (r: Option<bool>)
        requires
            S::spec_bits() <= u32::MAX,
        ensures
            index < S::spec_bits() ==> r == Some(old(self)@[index as int]) && final(self)@ == old(
                self,
            )@.update(index as int, true),
            index >= S::spec_bits() ==> r.is_none() && *final(self) == *old(self),
    {
        if index >= S::bits() {
            None
        } else {
            let previous = self.bits.get(index);
            self.bits.set(index);
            Some(previous)
        }
    }

    /// Sets the bit at the specified index, which the caller knows to be
    /// in bounds, and returns its previous value.
    #[inline]
    pub fn set_unchecked(&mut self, index: u32) -> (r: bool)
        requires
            S::spec_bits() <= u32::MAX,
            index < S::spec_bits(),
        ensures
            r == old(self)@[index as int],
            final(self)@ == old(self)@.update(index as int, true),
    {
        let previous = self.bits.get(index);
        self.bits.set(index);
        previous
    }

    /// Unsets the bit at the specified index, and returns its previous
    /// value. An index out of bounds changes nothing and gives `None`.
    #[inline]
    pub fn unset(&mut self, index: u32) -> (r: Option<bool>)
        requires
            S::spec_bits() <= u32::MAX,
        ensures
            index < S::spec_bits() ==> r == Some(old(self)@[index as int]) && final(self)@ == old(
                self,
            )@.update(index as int, false),
            index >= S::spec_bits() ==> r.is_none() && *final(self) == *old(self),
    {
        if index >= S::bits() {
            None
        } else {
            let previous = self.bits.get(index);
            self.bits.unset(index);
            Some(previous)
        }
    }

    /// Unsets the bit at the specified index, which the caller knows to be
    /// in bounds, and returns its previous value.
    #[inline]
    pub fn unset_unchecked(&mut self, index: u32) -> (r: bool)
        requires
            S::spec_bits() <= u32::MAX,
            index < S::spec_bits(),
        ensures
            r == old(self)@[index as int],
            final(self)@ == old(self)@.update(index as int, false),
    {
        let previous = self.bits.get(index);
        self.bits.unset(index);
        previous
    }

    /// Changes the bit at the specified index to `value`, and returns its
    /// previous value. An index out of bounds changes nothing and gives
    /// `None`.
    #[inline]
    pub fn change(&mut self, index: u32, value: bool) -> (r: Option<bool>)
        requires
            S::spec_bits() <= u32::MAX,
        ensures
            index < S::spec_bits() ==> r == Some(old(self)@[index as int]) && final(self)@ == old(
                self,
            )@.update(index as int, value),
            index >= S::spec_bits() ==> r.is_none() && *final(self) == *old(self),
    {
        if value {
            self.set(index)
        } else {
            self.unset(index)
        }
    }

    /// Changes the bit at the specified index, which the caller knows to be
    /// in bounds, to `value`, and returns its previous value.
    #[inline]
    pub fn change_unchecked(&mut self, index: u32, value: bool) -> (r: bool)
        requires
            S::spec_bits() <= u32::MAX,
            index < S::spec_bits(),
        ensures
            r == old(self)@[index as int],
            final(self)@ == old(self)@.update(index as int, value),
    {
        if value {
            self.set_unchecked(index)
        } else {
            self.unset_unchecked(index)
        }
    }

    /// Performs the union of two `BitSet`s, modifying `self` in place.
    #[inline]
    pub fn union_with(&mut self, other: &Self)
        ensures
            final(self)@ == union_bits(old(self)@, other@),
    {
        self.bits.union_with(&other.bits);
    }

    /// Performs the intersection of two `BitSet`s, modifying `self` in place.
    #[inline]
    pub fn intersect_with(&mut self, other: &Self)
        ensures
            final(self)@ == intersect_bits(old(self)@, other@),
    {
        self.bits.intersect_with(&other.bits);
    }

    /// Performs the difference of two `BitSet`s, modifying `self` in place.
    #[inline]
    pub fn difference_with(&mut self, other: &Self)
        ensures
            final(self)@ == difference_bits(old(self)@, other@),
    {
        self.bits.difference_with(&other.bits);
    }

    /// Performs the symmetric difference of two `BitSet`s, modifying `self` in place.
    #[inline]
    pub fn symmetric_difference_with(&mut self, other: &Self)
        ensures
            final(self)@ == symmetric_difference_bits(old(self)@, other@),
    {
        self.bits.symmetric_difference_with(&other.bits);
    }

    /// Performs the negation of all the bits, modifying `self` in place.
    #[inline]
    pub fn negate(&mut self)
        ensures
            final(self)@ == negate_bits(old(self)@),
    {
        self.bits.negate();
    }
}

impl<S: BitStore> From<S> for BitSet<S> {
    /// Wraps a store: the set holds the bits of the store.
    #[inline]
    fn from(bits: S) -> (r: Self)
        ensures
            r@ == bits.bitseq(),
    {
        Self { bits }
    }
}

impl<S: BitStore> vstd::std_specs::convert::FromSpecImpl<S> for BitSet<S> {
    open spec fn obeys_from_spec() -> bool {
        true
    }

    closed spec fn from_spec(bits: S) -> Self {
        BitSet { bits }
    }
}

impl<S: BitStore> core::ops::Index<u32> for BitSet<S> {
    type Output = bool;

    /// The bit at an index in bounds.
    #[inline]
    fn index(&self, index: u32) -> (r: &bool)
        ensures
            *r == self@[index as int],
    {
        match self.bits.get(index) {
            true => &true,
            false => &false,
        }
    }
}

impl<S: BitStore> vstd::std_specs::core::IndexSpecImpl<u32> for BitSet<S> {
    open spec fn index_req(&self, index: &u32) -> bool {
        *index < S::spec_bits() <= u32::MAX
    }
}

impl<S: BitStoreClone> BitSet<S> {
    /// Two sets over a store of plain values that hold the same bits are the
    /// same set.
    pub proof fn lemma_view_fixes_value(&self, other: Self)
        requires
            self@ == other@,
        ensures
            *self == other,
    {
        self.bits.lemma_bits_fix_value(other.bits);
    }

    /// Negating a set twice gives the set back: if `once` is the negation of
    /// `self` and `twice` the negation of `once`, then `twice` is `self`.
    pub proof fn lemma_double_negation(&self, once: Self, twice: Self)
        requires
            once@ == negate_bits(self@),
            twice@ == negate_bits(once@),
        ensures
            twice@ == self@,
            twice == *self,
    {
        lemma_negate_twice(self@);
        self.lemma_view_fixes_value(twice);
    }
}

impl<S: BitStoreMut + BitStoreClone> BitSet<S> {
    /// Performs the union of two `BitSet`s.
    #[inline]
    pub fn union(&self, other: &Self) -> (r: Self)
        ensures
            r@ == union_bits(self@, other@),
    {
        let mut bits = self.bits.clone();
        proof {
            self.bits.lemma_clone_keeps_bits(bits);
        }
        bits.union_with(&other.bits);
        Self { bits }
    }

    /// Performs the intersection of two `BitSet`s.
    #[inline]
    pub fn intersection(&self, other: &Self) -> (r: Self)
        ensures
            r@ == intersect_bits(self@, other@),
    {
        let mut bits = self.bits.clone();
        proof {
            self.bits.lemma_clone_keeps_bits(bits);
        }
        bits.intersect_with(&other.bits);
        Self { bits }
    }

    /// Performs the difference of two `BitSet`s.
    #[inline]
    pub fn difference(&self, other: &Self) -> (r: Self)
        ensures
            r@ == difference_bits(self@, other@),
    {
        let mut bits = self.bits.clone();
        proof {
            self.bits.lemma_clone_keeps_bits(bits);
        }
        bits.difference_with(&other.bits);
        Self { bits }
    }

    /// Performs the symmetric difference of two `BitSet`s.
    #[inline]
    pub fn symmetric_difference(&self, other: &Self) -> (r: Self)
        ensures
            r@ == symmetric_difference_bits(self@, other@),
    {
        let mut bits = self.bits.clone();
        proof {
            self.bits.lemma_clone_keeps_bits(bits);
        }
        bits.symmetric_difference_with(&other.bits);
        Self { bits }
    }

    /// Performs the negation of all the bits.
    #[inline]
    pub fn negation(&self) -> (r: Self)
        ensures
            r@ == negate_bits(self@),
    {
        let mut bits = self.bits.clone();
        proof {
            self.bits.lemma_clone_keeps_bits(bits);
        }
        bits.negate();
        Self { bits }
    }

    /// Returns `true` if `self` is a subset of `other`,
    /// i.e., every bit in `self` is set in `other`.
    #[inline]
    pub fn is_subset(&self, other: &Self) -> (r: bool)
        requires
            S::spec_bits() <= u32::MAX,
        ensures
            r == (count_true(difference_bits(self@, other@)) == 0),
            r == (forall|i: int| 0 <= i < self@.len() ==> (self@[i] ==> other@[i])),
    {
        proof {
            self.bits.lemma_width();
            other.bits.lemma_width();
            crate::model::lemma_relations_pointwise(self@, other@);
        }
        self.difference(other).is_empty()
    }

    /// Returns `true` if `self` is a superset of `other`,
    /// i.e., every bit in `other` is set in `self`.
    #[inline]
    pub fn is_superset(&self, other: &Self) -> (r: bool)
        requires
            S::spec_bits() <= u32::MAX,
        ensures
            r == (count_true(difference_bits(other@, self@)) == 0),
            r == (forall|i: int| 0 <= i < self@.len() ==> (other@[i] ==> self@[i])),
    {
        proof {
            self.bits.lemma_width();
            other.bits.lemma_width();
        }
        other.is_subset(self)
    }

    /// Returns `true` if `self` and `other` have no common bits set,
    /// i.e., their intersection is empty.
    #[inline]
    pub fn is_disjoint(&self, other: &Self) -> (r: bool)
        requires
            S::spec_bits() <= u32::MAX,
        ensures
            r == (count_true(intersect_bits(self@, other@)) == 0),
            r == (forall|i: int| 0 <= i < self@.len() ==> !(self@[i] && other@[i])),
    {
        proof {
            self.bits.lemma_width();
            other.bits.lemma_width();
            crate::model::lemma_relations_pointwise(self@, other@);
        }
        self.intersection(other).is_empty()
    }
}

} // verus!
