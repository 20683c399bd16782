//! `usize` as a store of `usize::BITS` bits: bit `i` is the binary digit of weight `2^i`.
use crate::model::{count_true, lemma_count_true_full, lemma_count_true_zero};
use crate::store::{BitStore, BitStoreClone, BitStoreConst, BitStoreMut, DefaultIsEmpty};
use vstd::prelude::*;

verus! {

/// How one bit of `x` reads after the bit `i` has been set or cleared.
proof fn lemma_single(x: usize, i: u32, k: usize, j: usize)
    by (bit_vector)
    requires
        i < usize::BITS,
        k == i,
        j < usize::BITS,
    ensures
        ((1usize << i) & x != 0) == ((x >> k) & 1usize == 1usize),
        (((x | (1usize << i)) >> j) & 1usize == 1usize) == (j == k || (x >> j) & 1usize == 1usize),
        (((x & !(1usize << i)) >> j) & 1usize == 1usize) == (j != k && (x >> j) & 1usize == 1usize),
{
}

/// How one bit of a bitwise combination of `x` and `y` reads.
proof fn lemma_pairwise(x: usize, y: usize, j: usize)
    by (bit_vector)
    requires
        j < usize::BITS,
    ensures
        (((x | y) >> j) & 1usize == 1usize) == ((x >> j) & 1usize == 1usize || (y >> j) & 1usize == 1usize),
        (((x & y) >> j) & 1usize == 1usize) == ((x >> j) & 1usize == 1usize && (y >> j) & 1usize == 1usize),
        (((x & !y) >> j) & 1usize == 1usize) == ((x >> j) & 1usize == 1usize && (y >> j) & 1usize != 1usize),
        (((x ^ y) >> j) & 1usize == 1usize) == (((x >> j) & 1usize == 1usize) != ((y >> j) & 1usize
            == 1usize)),
        (((!x) >> j) & 1usize == 1usize) == ((x >> j) & 1usize != 1usize),
        (x >> j) & 1usize == 0usize || (x >> j) & 1usize == 1usize,
        x ^ y == 0 ==> x == y,
{
}

/// The bits of zero and of its complement, and how `x >> j` is zero once
/// bit `j` and everything above it are.
proof fn lemma_shift(x: usize, j: usize, above: usize)
    by (bit_vector)
    requires
        j < usize::BITS,
        above == j + 1,
    ensures
        (0usize >> j) & 1usize != 1usize,
        ((!0usize) >> j) & 1usize == 1usize,
        (j == (usize::BITS - 1) && (x >> j) & 1usize != 1usize) ==> x >> j == 0,
        (j < (usize::BITS - 1) && x >> above == 0 && (x >> j) & 1usize != 1usize) ==> x >> j == 0,
        x >> 0 == x,
        (!x == 0) == (x == !0usize),
{
}

/// With no bit set at index `k` or above, `x >> k` is zero.
proof fn lemma_clear_above(x: usize, k: int)
    requires
        0 <= k < usize::BITS,
        forall|j: int| k <= j < usize::BITS ==> !x.bitseq()[j],
    ensures
        x >> (k as usize) == 0,
    decreases usize::BITS - k,
{
    lemma_shift(x, k as usize, (k + 1) as usize);
    assert(!x.bitseq()[k]);
    if k < (usize::BITS - 1) {
        lemma_clear_above(x, k + 1);
    }
}

/// A value is zero exactly when none of its bits is set.
proof fn lemma_zero(x: usize)
    ensures
        (x == 0) == (count_true(x.bitseq()) == 0),
{
    lemma_count_true_zero(x.bitseq());
    if x == 0 {
        assert forall|i: int| 0 <= i < usize::BITS implies !x.bitseq()[i] by {
            lemma_shift(x, i as usize, (i + 1) as usize);
        }
    }
    if count_true(x.bitseq()) == 0 {
        assert forall|j: int| 0 <= j < usize::BITS implies !x.bitseq()[j] by {
            assert(!x.bitseq()[j]);
        }
        lemma_clear_above(x, 0);
        lemma_shift(x, 0, 1);
    }
}

/// A value is the complement of zero exactly when all of its bits are set.
proof fn lemma_ones(x: usize)
    ensures
        (x == !0usize) == (count_true(x.bitseq()) == usize::BITS),
{
    let y = !x;
    lemma_count_true_full(x.bitseq());
    lemma_count_true_zero(y.bitseq());
    lemma_zero(y);
    lemma_shift(x, 0, 1);
    assert forall|j: int| 0 <= j < usize::BITS implies y.bitseq()[j] == !x.bitseq()[j] by {
        lemma_pairwise(x, x, j as usize);
    }
    if count_true(x.bitseq()) == usize::BITS {
        assert forall|j: int| 0 <= j < usize::BITS implies !y.bitseq()[j] by {
            assert(x.bitseq()[j]);
        }
    }
    if count_true(y.bitseq()) == 0 {
        assert forall|j: int| 0 <= j < usize::BITS implies x.bitseq()[j] by {
            assert(!y.bitseq()[j]);
        }
    }
}

/// Calls `usize::count_ones`, which std documents as returning the number of
/// ones in the binary representation of its argument. Trusted: the contract
/// restates that over the bits of `x`.
#[verifier::external_body]
fn count_ones_of(x: usize) -> (r: u32)
    ensures
        r == count_true(x.bitseq()),
{
    usize::count_ones(x)
}

/// Calls `usize::trailing_zeros`, which std documents as returning the number
/// of trailing zeros in the binary representation of its argument. Trusted:
/// the contract restates that as the run of unset bits from index 0 upward.
#[verifier::external_body]
fn trailing_zeros_of(x: usize) -> (r: u32)
    ensures
        r == crate::model::low_run(x.bitseq(), false),
{
    usize::trailing_zeros(x)
}

/// Calls `usize::trailing_ones`, which std documents as returning the number
/// of trailing ones in the binary representation of its argument. Trusted:
/// the contract restates that as the run of set bits from index 0 upward.
#[verifier::external_body]
fn trailing_ones_of(x: usize) -> (r: u32)
    ensures
        r == crate::model::low_run(x.bitseq(), true),
{
    usize::trailing_ones(x)
}

/// Calls `usize::leading_zeros`, which std documents as returning the number
/// of leading zeros in the binary representation of its argument. Trusted:
/// the contract restates that as the run of unset bits from the highest index
/// downward.
#[verifier::external_body]
fn leading_zeros_of(x: usize) -> (r: u32)
    ensures
        r == crate::model::high_run(x.bitseq(), false),
{
    usize::leading_zeros(x)
}

/// Calls `usize::leading_ones`, which std documents as returning the number
/// of leading ones in the binary representation of its argument. Trusted:
/// the contract restates that as the run of set bits from the highest index
/// downward.
#[verifier::external_body]
fn leading_ones_of(x: usize) -> (r: u32)
    ensures
        r == crate::model::high_run(x.bitseq(), true),
{
    usize::leading_ones(x)
}

impl BitStore for usize {
    open spec fn spec_bits() -> nat {
        usize::BITS as nat
    }

    open spec fn bitseq(&self) -> Seq<bool> {
        Seq::new(usize::BITS as nat, |i: int| (*self >> (i as usize)) & 1usize == 1usize)
    }

    proof fn lemma_width(&self) {
    }

    #[inline]
    fn bits() -> (r: u32) {
        usize::BITS
    }

    #[inline]
    fn checked_bits() -> (r: Option<u32>) {
        Some(usize::BITS)
    }

    #[inline]
    fn get(&self, index: u32) -> (r: bool) {
        proof {
            lemma_single(*self, index, index as usize, 0);
        }
        (1 << index) & *self != 0
    }

    #[inline]
    fn count_ones(&self) -> (r: u32) {
        count_ones_of(*self)
    }

    #[inline]
    fn trailing_zeros(&self) -> (r: u32) {
        trailing_zeros_of(*self)
    }

    #[inline]
    fn trailing_ones(&self) -> (r: u32) {
        trailing_ones_of(*self)
    }

    #[inline]
    fn leading_zeros(&self) -> (r: u32) {
        leading_zeros_of(*self)
    }

    #[inline]
    fn leading_ones(&self) -> (r: u32) {
        leading_ones_of(*self)
    }

    #[inline]
    fn is_empty(&self) -> (r: bool) {
        proof {
            lemma_zero(*self);
        }
        *self == 0
    }

    #[inline]
    fn is_full(&self) -> (r: bool) {
        proof {
            lemma_ones(*self);
        }
        *self == !0
    }
}

impl BitStoreMut for usize {
    #[inline]
    fn set(&mut self, index: u32) {
        *self |= 1 << index;
        proof {
            let x = *old(self);
            let after = old(self).bitseq().update(index as int, true);
            assert forall|j: int| 0 <= j < usize::BITS implies self.bitseq()[j] == after[j] by {
                lemma_single(x, index, index as usize, j as usize);
            }
            assert(self.bitseq() =~= after);
        }
    }

    #[inline]
    fn unset(&mut self, index: u32) {
        *self &= !(1 << index);
        proof {
            let x = *old(self);
            let after = old(self).bitseq().update(index as int, false);
            assert forall|j: int| 0 <= j < usize::BITS implies self.bitseq()[j] == after[j] by {
                lemma_single(x, index, index as usize, j as usize);
            }
            assert(self.bitseq() =~= after);
        }
    }

    #[inline]
    fn union_with(&mut self, other: &Self) {
        *self |= *other;
        proof {
            let x = *old(self);
            let after = crate::model::union_bits(old(self).bitseq(), other.bitseq());
            assert forall|j: int| 0 <= j < usize::BITS implies self.bitseq()[j] == after[j] by {
                lemma_pairwise(x, *other, j as usize);
            }
            assert(self.bitseq() =~= after);
        }
    }

    #[inline]
    fn intersect_with(&mut self, other: &Self) {
        *self &= *other;
        proof {
            let x = *old(self);
            let after = crate::model::intersect_bits(old(self).bitseq(), other.bitseq());
            assert forall|j: int| 0 <= j < usize::BITS implies self.bitseq()[j] == after[j] by {
                lemma_pairwise(x, *other, j as usize);
            }
            assert(self.bitseq() =~= after);
        }
    }

    #[inline]
    fn difference_with(&mut self, other: &Self) {
        *self &= !*other;
        proof {
            let x = *old(self);
            let after = crate::model::difference_bits(old(self).bitseq(), other.bitseq());
            assert forall|j: int| 0 <= j < usize::BITS implies self.bitseq()[j] == after[j] by {
                lemma_pairwise(x, *other, j as usize);
            }
            assert(self.bitseq() =~= after);
        }
    }

    #[inline]
    fn symmetric_difference_with(&mut self, other: &Self) {
        *self ^= *other;
        proof {
            let x = *old(self);
            let after = crate::model::symmetric_difference_bits(old(self).bitseq(), other.bitseq());
            assert forall|j: int| 0 <= j < usize::BITS implies self.bitseq()[j] == after[j] by {
                lemma_pairwise(x, *other, j as usize);
            }
            assert(self.bitseq() =~= after);
        }
    }

    #[inline]
    fn negate(&mut self) {
        *self = !*self;
        proof {
            let x = *old(self);
            let after = crate::model::negate_bits(old(self).bitseq());
            assert forall|j: int| 0 <= j < usize::BITS implies self.bitseq()[j] == after[j] by {
                lemma_pairwise(x, x, j as usize);
            }
            assert(self.bitseq() =~= after);
        }
    }
}

impl BitStoreConst for usize {
    #[inline]
    fn empty() -> (r: Self) {
        proof {
            assert forall|j: int| 0 <= j < usize::BITS implies !(0usize).bitseq()[j] by {
                lemma_shift(0, j as usize, (j + 1) as usize);
            }
            assert((0usize).bitseq() =~= crate::model::uniform(usize::BITS as nat, false));
        }
        0
    }

    #[inline]
    fn full() -> (r: Self) {
        proof {
            assert forall|j: int| 0 <= j < usize::BITS implies (!0usize).bitseq()[j] by {
                lemma_shift(0, j as usize, (j + 1) as usize);
            }
            assert((!0usize).bitseq() =~= crate::model::uniform(usize::BITS as nat, true));
        }
        !0
    }
}

impl BitStoreClone for usize {
    proof fn lemma_clone_keeps_bits(&self, copy: Self) {
    }

    proof fn lemma_bits_fix_value(&self, other: Self) {
        let x = *self;
        let d = x ^ other;
        assert forall|j: int| 0 <= j < usize::BITS implies !d.bitseq()[j] by {
            lemma_pairwise(x, other, j as usize);
            assert(x.bitseq()[j] == other.bitseq()[j]);
        }
        lemma_count_true_zero(d.bitseq());
        lemma_zero(d);
        lemma_pairwise(x, other, 0);
    }
}

impl DefaultIsEmpty for usize {
    proof fn lemma_default_is_empty(value: Self) {
        assert forall|j: int| 0 <= j < usize::BITS implies !(0usize).bitseq()[j] by {
            lemma_shift(0, j as usize, (j + 1) as usize);
        }
        assert(value.bitseq() =~= crate::model::uniform(usize::BITS as nat, false));
    }
}

} // verus!
