//! References and boxes as stores: each forwards every operation to the
//! store it points to and has no bits of its own.
use crate::store::{BitStore, BitStoreClone, BitStoreMut, DefaultIsEmpty};
use vstd::prelude::*;

verus! {

impl<'a, T: BitStore> BitStore for &'a T {
    open spec fn spec_bits() -> nat {
        T::spec_bits()
    }

    open spec fn bitseq(&self) -> Seq<bool> {
        (**self).bitseq()
    }

    proof fn lemma_width(&self) {
        (**self).lemma_width();
    }

    #[inline]
    fn bits() -> (r: u32) {
        T::bits()
    }

    #[inline]
    fn checked_bits() -> (r: Option<u32>) {
        T::checked_bits()
    }

    #[inline]
    fn get(&self, index: u32) -> (r: bool) {
        BitStore::get(&**self, index)
    }

    #[inline]
    fn count_ones(&self) -> (r: u32) {
        BitStore::count_ones(&**self)
    }

    #[inline]
    fn trailing_zeros(&self) -> (r: u32) {
        BitStore::trailing_zeros(&**self)
    }

    #[inline]
    fn trailing_ones(&self) -> (r: u32) {
        BitStore::trailing_ones(&**self)
    }

    #[inline]
    fn leading_zeros(&self) -> (r: u32) {
        BitStore::leading_zeros(&**self)
    }

    #[inline]
    fn leading_ones(&self) -> (r: u32) {
        BitStore::leading_ones(&**self)
    }
}

impl<'a, T: BitStore> BitStore for &'a mut T {
    open spec fn spec_bits() -> nat {
        T::spec_bits()
    }

    open spec fn bitseq(&self) -> Seq<bool> {
        (**self).bitseq()
    }

    proof fn lemma_width(&self) {
        (**self).lemma_width();
    }

    #[inline]
    fn bits() -> (r: u32) {
        T::bits()
    }

    #[inline]
    fn checked_bits() -> (r: Option<u32>) {
        T::checked_bits()
    }

    #[inline]
    fn get(&self, index: u32) -> (r: bool) {
        BitStore::get(&**self, index)
    }

    #[inline]
    fn count_ones(&self) -> (r: u32) {
        BitStore::count_ones(&**self)
    }

    #[inline]
    fn trailing_zeros(&self) -> (r: u32) {
        BitStore::trailing_zeros(&**self)
    }

    #[inline]
    fn trailing_ones(&self) -> (r: u32) {
        BitStore::trailing_ones(&**self)
    }

    #[inline]
    fn leading_zeros(&self) -> (r: u32) {
        BitStore::leading_zeros(&**self)
    }

    #[inline]
    fn leading_ones(&self) -> (r: u32) {
        BitStore::leading_ones(&**self)
    }
}

impl<'a, T: BitStoreMut> BitStoreMut for &'a mut T {
    #[inline]
    fn set(&mut self, index: u32) {
        BitStoreMut::set(&mut **self, index)
    }

    #[inline]
    fn unset(&mut self, index: u32) {
        BitStoreMut::unset(&mut **self, index)
    }

    #[inline]
    fn union_with(&mut self, other: &Self) {
        BitStoreMut::union_with(&mut **self, &**other)
    }

    #[inline]
    fn intersect_with(&mut self, other: &Self) {
        BitStoreMut::intersect_with(&mut **self, &**other)
    }

    #[inline]
    fn difference_with(&mut self, other: &Self) {
        BitStoreMut::difference_with(&mut **self, &**other)
    }

    #[inline]
    fn symmetric_difference_with(&mut self, other: &Self) {
        BitStoreMut::symmetric_difference_with(&mut **self, &**other)
    }

    #[inline]
    fn negate(&mut self) {
        BitStoreMut::negate(&mut **self)
    }
}

impl<T: BitStore> BitStore for Box<T> {
    open spec fn spec_bits() -> nat {
        T::spec_bits()
    }

    open spec fn bitseq(&self) -> Seq<bool> {
        (**self).bitseq()
    }

    proof fn lemma_width(&self) {
        (**self).lemma_width();
    }

    #[inline]
    fn bits() -> (r: u32) {
        T::bits()
    }

    #[inline]
    fn checked_bits() -> (r: Option<u32>) {
        T::checked_bits()
    }

    #[inline]
    fn get(&self, index: u32) -> (r: bool) {
        BitStore::get(&**self, index)
    }

    #[inline]
    fn count_ones(&self) -> (r: u32) {
        BitStore::count_ones(&**self)
    }

    #[inline]
    fn trailing_zeros(&self) -> (r: u32) {
        BitStore::trailing_zeros(&**self)
    }

    #[inline]
    fn trailing_ones(&self) -> (r: u32) {
        BitStore::trailing_ones(&**self)
    }

    #[inline]
    fn leading_zeros(&self) -> (r: u32) {
        BitStore::leading_zeros(&**self)
    }

    #[inline]
    fn leading_ones(&self) -> (r: u32) {
        BitStore::leading_ones(&**self)
    }
}

impl<T: BitStoreMut> BitStoreMut for Box<T> {
    #[inline]
    fn set(&mut self, index: u32) {
        BitStoreMut::set(&mut **self, index)
    }

    #[inline]
    fn unset(&mut self, index: u32) {
        BitStoreMut::unset(&mut **self, index)
    }

    #[inline]
    fn union_with(&mut self, other: &Self) {
        BitStoreMut::union_with(&mut **self, &**other)
    }

    #[inline]
    fn intersect_with(&mut self, other: &Self) {
        BitStoreMut::intersect_with(&mut **self, &**other)
    }

    #[inline]
    fn difference_with(&mut self, other: &Self) {
        BitStoreMut::difference_with(&mut **self, &**other)
    }

    #[inline]
    fn symmetric_difference_with(&mut self, other: &Self) {
        BitStoreMut::symmetric_difference_with(&mut **self, &**other)
    }

    #[inline]
    fn negate(&mut self) {
        BitStoreMut::negate(&mut **self)
    }
}

impl<'a, T: BitStoreClone> BitStoreClone for &'a T {
    proof fn lemma_clone_keeps_bits(&self, copy: Self) {
    }

    proof fn lemma_bits_fix_value(&self, other: Self) {
        (**self).lemma_bits_fix_value(*other);
    }
}

impl<T: BitStoreClone> BitStoreClone for Box<T> {
    proof fn lemma_clone_keeps_bits(&self, copy: Self) {
        (**self).lemma_clone_keeps_bits(*copy);
    }

    proof fn lemma_bits_fix_value(&self, other: Self) {
        (**self).lemma_bits_fix_value(*other);
    }
}

impl<T: DefaultIsEmpty> DefaultIsEmpty for Box<T> {
    proof fn lemma_default_is_empty(value: Self) {
        T::lemma_default_is_empty(*value);
    }
}

} // verus!
