//! `u128` as a store of 128 bits: bit `i` is the binary digit of weight `2^i`.
use crate::model::{count_true, lemma_count_true_full, lemma_count_true_zero};
use crate::store::{BitStore, BitStoreClone, BitStoreConst, BitStoreMut, DefaultIsEmpty};
use vstd::prelude::*;

verus! {

/// How one bit of `x` reads after the bit `i` has been set or cleared.
proof fn lemma_single(x: u128, i: u32, k: u128, j: u128)
    by (bit_vector)
    requires
        i < 128,
        k == i,
        j < 128,
    ensures
        ((1u128 << i) & x != 0) == ((x >> k) & 1u128 == 1u128),
        (((x | (1u128 << i)) >> j) & 1u128 == 1u128) == (j == k || (x >> j) & 1u128 == 1u128),
        (((x & !(1u128 << i)) >> j) & 1u128 == 1u128) == (j != k && (x >> j) & 1u128 == 1u128),
{
}

/// How one bit of a bitwise combination of `x` and `y` reads.
proof fn lemma_pairwise(x: u128, y: u128, j: u128)
    by (bit_vector)
    requires
        j < 128,
    ensures
        (((x | y) >> j) & 1u128 == 1u128) == ((x >> j) & 1u128 == 1u128 || (y >> j) & 1u128 == 1u128),
        (((x & y) >> j) & 1u128 == 1u128) == ((x >> j) & 1u128 == 1u128 && (y >> j) & 1u128 == 1u128),
        (((x & !y) >> j) & 1u128 == 1u128) == ((x >> j) & 1u128 == 1u128 && (y >> j) & 1u128 != 1u128),
        (((x ^ y) >> j) & 1u128 == 1u128) == (((x >> j) & 1u128 == 1u128) != ((y >> j) & 1u128
            == 1u128)),
        (((!x) >> j) & 1u128 == 1u128) == ((x >> j) & 1u128 != 1u128),
        (x >> j) & 1u128 == 0u128 || (x >> j) & 1u128 == 1u128,
        x ^ y == 0 ==> x == y,
{
}

/// The bits of zero and of its complement, and how `x >> j` is zero once
/// bit `j` and everything above it are.
proof fn lemma_shift(x: u128, j: u128, above: u128)
    by (bit_vector)
    requires
        j < 128,
        above == j + 1,
    ensures
        (0u128 >> j) & 1u128 != 1u128,
        ((!0u128) >> j) & 1u128 == 1u128,
        (j == 127 && (x >> j) & 1u128 != 1u128) ==> x >> j == 0,
        (j < 127 && x >> above == 0 && (x >> j) & 1u128 != 1u128) ==> x >> j == 0,
        x >> 0 == x,
        (!x == 0) == (x == !0u128),
{
}

/// With no bit set at index `k` or above, `x >> k` is zero.
proof fn lemma_clear_above(x: u128, k: int)
    requires
        0 <= k < 128,
        forall|j: int| k <= j < 128 ==> !x.bitseq()[j],
    ensures
        x >> (k as u128) == 0,
    decreases 128 - k,
{
    lemma_shift(x, k as u128, (k + 1) as u128);
    assert(!x.bitseq()[k]);
    if k < 127 {
        lemma_clear_above(x, k + 1);
    }
}

/// A value is zero exactly when none of its bits is set.
proof fn lemma_zero(x: u128)
    ensures
        (x == 0) == (count_true(x.bitseq()) == 0),
{
    lemma_count_true_zero(x.bitseq());
    if x == 0 {
        assert forall|i: int| 0 <= i < 128 implies !x.bitseq()[i] by {
            lemma_shift(x, i as u128, (i + 1) as u128);
        }
    }
    if count_true(x.bitseq()) == 0 {
        assert forall|j: int| 0 <= j < 128 implies !x.bitseq()[j] by {
            assert(!x.bitseq()[j]);
        }
        lemma_clear_above(x, 0);
        lemma_shift(x, 0, 1);
    }
}

/// A value is the complement of zero exactly when all of its bits are set.
proof fn lemma_ones(x: u128)
    ensures
        (x == !0u128) == (count_true(x.bitseq()) == 128),
{
    let y = !x;
    lemma_count_true_full(x.bitseq());
    lemma_count_true_zero(y.bitseq());
    lemma_zero(y);
    lemma_shift(x, 0, 1);
    assert forall|j: int| 0 <= j < 128 implies y.bitseq()[j] == !x.bitseq()[j] by {
        lemma_pairwise(x, x, j as u128);
    }
    if count_true(x.bitseq()) == 128 {
        assert forall|j: int| 0 <= j < 128 implies !y.bitseq()[j] by {
            assert(x.bitseq()[j]);
        }
    }
    if count_true(y.bitseq()) == 0 {
        assert forall|j: int| 0 <= j < 128 implies x.bitseq()[j] by {
            assert(!y.bitseq()[j]);
        }
    }
}

/// Calls `u128::count_ones`, which std documents as returning the number of
/// ones in the binary representation of its argument. Trusted: the contract
/// restates that over the bits of `x`.
#[verifier::external_body]
fn count_ones_of(x: u128) -> (r: u32)
    ensures
        r == count_true(x.bitseq()),
{
    u128::count_ones(x)
}

/// Calls `u128::trailing_zeros`, which std documents as returning the number
/// of trailing zeros in the binary representation of its argument. Trusted:
/// the contract restates that as the run of unset bits from index 0 upward.
#[verifier::external_body]
fn trailing_zeros_of(x: u128) -> (r: u32)
    ensures
        r == crate::model::low_run(x.bitseq(), false),
{
    u128::trailing_zeros(x)
}

/// Calls `u128::trailing_ones`, which std documents as returning the number
/// of trailing ones in the binary representation of its argument. Trusted:
/// the contract restates that as the run of set bits from index 0 upward.
#[verifier::external_body]
fn trailing_ones_of(x: u128) -> (r: u32)
    ensures
        r == crate::model::low_run(x.bitseq(), true),
{
    u128::trailing_ones(x)
}

/// Calls `u128::leading_zeros`, which std documents as returning the number
/// of leading zeros in the binary representation of its argument. Trusted:
/// the contract restates that as the run of unset bits from the highest index
/// downward.
#[verifier::external_body]
fn leading_zeros_of(x: u128) -> (r: u32)
    ensures
        r == crate::model::high_run(x.bitseq(), false),
{
    u128::leading_zeros(x)
}

/// Calls `u128::leading_ones`, which std documents as returning the number
/// of leading ones in the binary representation of its argument. Trusted:
/// the contract restates that as the run of set bits from the highest index
/// downward.
#[verifier::external_body]
fn leading_ones_of(x: u128) -> (r: u32)
    ensures
        r == crate::model::high_run(x.bitseq(), true),
{
    u128::leading_ones(x)
}

impl BitStore for u128 {
    open spec fn spec_bits() -> nat {
        128
    }

    open spec fn bitseq(&self) -> Seq<bool> {
        Seq::new(128, |i: int| (*self >> (i as u128)) & 1u128 == 1u128)
    }

    proof fn lemma_width(&self) {
    }

    #[inline]
    fn bits() -> (r: u32) {
        128
    }

    #[inline]
    fn checked_bits() -> (r: Option<u32>) {
        Some(128)
    }

    #[inline]
    fn get(&self, index: u32) -> (r: bool) {
        proof {
            lemma_single(*self, index, index as u128, 0);
        }
        (1 << index) & *self != 0
    }

    #[inline]
    fn count_ones(&self) -> (r: u32) {
        count_ones_of(*self)
    }

    #[inline]
    fn trailing_zeros(&self) -> (r: u32) {
        trailing_zeros_of(*self)
    }

    #[inline]
    fn trailing_ones(&self) -> (r: u32) {
        trailing_ones_of(*self)
    }

    #[inline]
    fn leading_zeros(&self) -> (r: u32) {
        leading_zeros_of(*self)
    }

    #[inline]
    fn leading_ones(&self) -> (r: u32) {
        leading_ones_of(*self)
    }

    #[inline]
    fn is_empty(&self) -> (r: bool) {
        proof {
            lemma_zero(*self);
        }
        *self == 0
    }

    #[inline]
    fn is_full(&self) -> (r: bool) {
        proof {
            lemma_ones(*self);
        }
        *self == !0
    }
}

impl BitStoreMut for u128 {
    #[inline]
    fn set(&mut self, index: u32) {
        *self |= 1 << index;
        proof {
            let x = *old(self);
            let after = old(self).bitseq().update(index as int, true);
            assert forall|j: int| 0 <= j < 128 implies self.bitseq()[j] == after[j] by {
                lemma_single(x, index, index as u128, j as u128);
            }
            assert(self.bitseq() =~= after);
        }
    }

    #[inline]
    fn unset(&mut self, index: u32) {
        *self &= !(1 << index);
        proof {
            let x = *old(self);
            let after = old(self).bitseq().update(index as int, false);
            assert forall|j: int| 0 <= j < 128 implies self.bitseq()[j] == after[j] by {
                lemma_single(x, index, index as u128, j as u128);
            }
            assert(self.bitseq() =~= after);
        }
    }

    #[inline]
    fn union_with(&mut self, other: &Self) {
        *self |= *other;
        proof {
            let x = *old(self);
            let after = crate::model::union_bits(old(self).bitseq(), other.bitseq());
            assert forall|j: int| 0 <= j < 128 implies self.bitseq()[j] == after[j] by {
                lemma_pairwise(x, *other, j as u128);
            }
            assert(self.bitseq() =~= after);
        }
    }

    #[inline]
    fn intersect_with(&mut self, other: &Self) {
        *self &= *other;
        proof {
            let x = *old(self);
            let after = crate::model::intersect_bits(old(self).bitseq(), other.bitseq());
            assert forall|j: int| 0 <= j < 128 implies self.bitseq()[j] == after[j] by {
                lemma_pairwise(x, *other, j as u128);
            }
            assert(self.bitseq() =~= after);
        }
    }

    #[inline]
    fn difference_with(&mut self, other: &Self) {
        *self &= !*other;
        proof {
            let x = *old(self);
            let after = crate::model::difference_bits(old(self).bitseq(), other.bitseq());
            assert forall|j: int| 0 <= j < 128 implies self.bitseq()[j] == after[j] by {
                lemma_pairwise(x, *other, j as u128);
            }
            assert(self.bitseq() =~= after);
        }
    }

    #[inline]
    fn symmetric_difference_with(&mut self, other: &Self) {
        *self ^= *other;
        proof {
            let x = *old(self);
            let after = crate::model::symmetric_difference_bits(old(self).bitseq(), other.bitseq());
            assert forall|j: int| 0 <= j < 128 implies self.bitseq()[j] == after[j] by {
                lemma_pairwise(x, *other, j as u128);
            }
            assert(self.bitseq() =~= after);
        }
    }

    #[inline]
    fn negate(&mut self) {
        *self = !*self;
        proof {
            let x = *old(self);
            let after = crate::model::negate_bits(old(self).bitseq());
            assert forall|j: int| 0 <= j < 128 implies self.bitseq()[j] == after[j] by {
                lemma_pairwise(x, x, j as u128);
            }
            assert(self.bitseq() =~= after);
        }
    }
}

impl BitStoreConst for u128 {
    #[inline]
    fn empty() -> (r: Self) {
        proof {
            assert forall|j: int| 0 <= j < 128 implies !(0u128).bitseq()[j] by {
                lemma_shift(0, j as u128, (j + 1) as u128);
            }
            assert((0u128).bitseq() =~= crate::model::uniform(128, false));
        }
        0
    }

    #[inline]
    fn full() -> (r: Self) {
        proof {
            assert forall|j: int| 0 <= j < 128 implies (!0u128).bitseq()[j] by {
                lemma_shift(0, j as u128, (j + 1) as u128);
            }
            assert((!0u128).bitseq() =~= crate::model::uniform(128, true));
        }
        !0
    }
}

impl BitStoreClone for u128 {
    proof fn lemma_clone_keeps_bits(&self, copy: Self) {
    }

    proof fn lemma_bits_fix_value(&self, other: Self) {
        let x = *self;
        let d = x ^ other;
        assert forall|j: int| 0 <= j < 128 implies !d.bitseq()[j] by {
            lemma_pairwise(x, other, j as u128);
            assert(x.bitseq()[j] == other.bitseq()[j]);
        }
        lemma_count_true_zero(d.bitseq());
        lemma_zero(d);
        lemma_pairwise(x, other, 0);
    }
}

impl DefaultIsEmpty for u128 {
    proof fn lemma_default_is_empty(value: Self) {
        assert forall|j: int| 0 <= j < 128 implies !(0u128).bitseq()[j] by {
            lemma_shift(0, j as u128, (j + 1) as u128);
        }
        assert(value.bitseq() =~= crate::model::uniform(128, false));
    }
}

} // verus!
