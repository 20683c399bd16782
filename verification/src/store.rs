//! Traits for types that can be used to store bits.
use crate::model::{
    count_true, difference_bits, high_run, intersect_bits, low_run, negate_bits,
    symmetric_difference_bits, uniform, union_bits,
};
use vstd::prelude::*;

verus! {

/// A trait for types that can be used to store bits.
///
/// The width of a store is a property of its type. The executable methods
/// hand out widths, counts and indices as `u32`, so they ask that the width
/// fits in one.
pub trait BitStore {
    /// The number of bits that can be stored in this type.
    spec fn spec_bits() -> nat;

    /// The bits of the store as a sequence, index 0 first.
    spec fn bitseq(&self) -> Seq<bool>;

    /// Every value of the type holds as many bits as the type is wide.
    proof fn lemma_width(&self)
        ensures
            self.bitseq().len() == Self::spec_bits(),
    ;

    /// Returns the number of bits that can be stored in this type.
    fn bits() -> (r: u32)
        requires
            Self::spec_bits() <= u32::MAX,
        ensures
            r == Self::spec_bits(),
    ;

    /// Returns the number of bits that can be stored in this type, or `None`
    /// if that number does not fit in a `u32`.
    fn checked_bits() -> (r: Option<u32>)
        ensures
            r == if Self::spec_bits() <= u32::MAX {
                Some(Self::spec_bits() as u32)
            } else {
                None
            },
    ;

    /// Returns the bit at the given index.
    fn get(&self, index: u32) -> (r: bool)
        requires
            Self::spec_bits() <= u32::MAX,
            index < Self::spec_bits(),
        ensures
            r == self.bitseq()[index as int],
    ;

    /// Returns the number of bits set to 1.
    fn count_ones(&self) -> (r: u32)
        requires
            Self::spec_bits() <= u32::MAX,
        ensures
            r == count_true(self.bitseq()),
    ;

    /// Returns the number of trailing bits set to 0.
    fn trailing_zeros(&self) -> (r: u32)
        requires
            Self::spec_bits() <= u32::MAX,
        ensures
            r == low_run(self.bitseq(), false),
    ;

    /// Returns the number of trailing bits set to 1.
    fn trailing_ones(&self) -> (r: u32)
        requires
            Self::spec_bits() <= u32::MAX,
        ensures
            r == low_run(self.bitseq(), true),
    ;

    /// Returns the number of leading bits set to 0.
    fn leading_zeros(&self) -> (r: u32)
        requires
            Self::spec_bits() <= u32::MAX,
        ensures
            r == high_run(self.bitseq(), false),
    ;

    /// Returns the number of leading bits set to 1.
    fn leading_ones(&self) -> (r: u32)
        requires
            Self::spec_bits() <= u32::MAX,
        ensures
            r == high_run(self.bitseq(), true),
    ;

    /// Returns `true` if this bitset is empty, i.e., all bits are unset.
    fn is_empty(&self) -> (r: bool)
        requires
            Self::spec_bits() <= u32::MAX,
        ensures
            r == (count_true(self.bitseq()) == 0),
    {
        self.count_ones() == 0
    }

    /// Returns `true` if this bitset is full, i.e., all bits are set.
    fn is_full(&self) -> (r: bool)
        requires
            Self::spec_bits() <= u32::MAX,
        ensures
            r == (count_true(self.bitseq()) == Self::spec_bits()),
    {
        self.count_ones() == Self::bits()
    }
}

/// A trait for types that can be used to store bits and can be modified.
pub trait BitStoreMut: BitStore {
    /// Sets the bit at the given index to 1.
    fn set(&mut self, index: u32)
        requires
            Self::spec_bits() <= u32::MAX,
            index < Self::spec_bits(),
        ensures
            final(self).bitseq() == old(self).bitseq().update(index as int, true),
    ;

    /// Sets the bit at the given index to 0.
    fn unset(&mut self, index: u32)
        requires
            Self::spec_bits() <= u32::MAX,
            index < Self::spec_bits(),
        ensures
            final(self).bitseq() == old(self).bitseq().update(index as int, false),
    ;

    /// Unions this bitset with another, modifying `self` in place.
    fn union_with(&mut self, other: &Self)
        ensures
            final(self).bitseq() == union_bits(old(self).bitseq(), other.bitseq()),
    ;

    /// Intersects this bitset with another, modifying `self` in place.
    fn intersect_with(&mut self, other: &Self)
        ensures
            final(self).bitseq() == intersect_bits(old(self).bitseq(), other.bitseq()),
    ;

    /// Subtracts another bitset from this one, modifying `self` in place.
    fn difference_with(&mut self, other: &Self)
        ensures
            final(self).bitseq() == difference_bits(old(self).bitseq(), other.bitseq()),
    ;

    /// Keeps the bits that are set in exactly one of this bitset and another,
    /// modifying `self` in place.
    fn symmetric_difference_with(&mut self, other: &Self)
        ensures
            final(self).bitseq() == symmetric_difference_bits(old(self).bitseq(), other.bitseq()),
    ;

    /// Negates this bitset, modifying `self` in place.
    fn negate(&mut self)
        ensures
            final(self).bitseq() == negate_bits(old(self).bitseq()),
    ;
}

/// A trait for types that can be used to store bits and have values for
/// empty and full bitsets.
pub trait BitStoreConst: BitStore + Sized {
    /// The value with every bit unset.
    fn empty() -> (r: Self)
        ensures
            r.bitseq() == uniform(Self::spec_bits(), false),
    ;

    /// The value with every bit set.
    fn full() -> (r: Self)
        ensures
            r.bitseq() == uniform(Self::spec_bits(), true),
    ;
}

/// A trait for stores that are plain values: a clone holds the same bits as
/// the value it was made from, and two values with the same bits are equal.
///
/// An implementation proves the first of whatever `Clone::clone` may return.
pub trait BitStoreClone: BitStore + Clone {
    /// A clone of a store holds the bits of the store.
    proof fn lemma_clone_keeps_bits(&self, copy: Self)
        requires
            cloned::<Self>(*self, copy),
        ensures
            copy.bitseq() == self.bitseq(),
    ;

    /// Two stores that hold the same bits are the same value.
    proof fn lemma_bits_fix_value(&self, other: Self)
        requires
            self.bitseq() == other.bitseq(),
        ensures
            *self == other,
    ;
}

/// A trait for types that have all bits set to 0 when they are created.
///
/// An implementation proves that whatever `Default::default` may return holds
/// no set bit.
pub trait DefaultIsEmpty: BitStore + Default {
    /// The default value of the type holds no set bit.
    proof fn lemma_default_is_empty(value: Self)
        requires
            call_ensures(Self::default, (), value),
        ensures
            value.bitseq() == uniform(Self::spec_bits(), false),
    ;
}

} // verus!
