//! `u32` as a store of 32 bits: bit `i` is the binary digit of weight `2^i`.
use crate::model::{
    count_true, lemma_count_true_full, lemma_count_true_zero, lemma_high_run_unique,
    lemma_low_run_unique,
};
use crate::store::{BitStore, BitStoreClone, BitStoreConst, BitStoreMut, DefaultIsEmpty};
use vstd::prelude::*;

verus! {

/// How one bit of `x` reads after the bit `i` has been set or cleared.
proof fn lemma_single(x: u32, i: u32, k: u32, j: u32)
    by (bit_vector)
    requires
        i < 32,
        k == i,
        j < 32,
    ensures
        ((1u32 << i) & x != 0) == ((x >> k) & 1u32 == 1u32),
        (((x | (1u32 << i)) >> j) & 1u32 == 1u32) == (j == k || (x >> j) & 1u32 == 1u32),
        (((x & !(1u32 << i)) >> j) & 1u32 == 1u32) == (j != k && (x >> j) & 1u32 == 1u32),
{
}

/// How one bit of a bitwise combination of `x` and `y` reads.
proof fn lemma_pairwise(x: u32, y: u32, j: u32)
    by (bit_vector)
    requires
        j < 32,
    ensures
        (((x | y) >> j) & 1u32 == 1u32) == ((x >> j) & 1u32 == 1u32 || (y >> j) & 1u32 == 1u32),
        (((x & y) >> j) & 1u32 == 1u32) == ((x >> j) & 1u32 == 1u32 && (y >> j) & 1u32 == 1u32),
        (((x & !y) >> j) & 1u32 == 1u32) == ((x >> j) & 1u32 == 1u32 && (y >> j) & 1u32 != 1u32),
        (((x ^ y) >> j) & 1u32 == 1u32) == (((x >> j) & 1u32 == 1u32) != ((y >> j) & 1u32
            == 1u32)),
        (((!x) >> j) & 1u32 == 1u32) == ((x >> j) & 1u32 != 1u32),
        (x >> j) & 1u32 == 0u32 || (x >> j) & 1u32 == 1u32,
        x ^ y == 0 ==> x == y,
{
}

/// The bits of zero and of its complement, and how `x >> j` is zero once
/// bit `j` and everything above it are.
proof fn lemma_shift(x: u32, j: u32, above: u32)
    by (bit_vector)
    requires
        j < 32,
        above == j + 1,
    ensures
        (0u32 >> j) & 1u32 != 1u32,
        ((!0u32) >> j) & 1u32 == 1u32,
        (j == 31 && (x >> j) & 1u32 != 1u32) ==> x >> j == 0,
        (j < 31 && x >> above == 0 && (x >> j) & 1u32 != 1u32) ==> x >> j == 0,
        x >> 0 == x,
        (!x == 0) == (x == !0u32),
{
}

/// With no bit set at index `k` or above, `x >> k` is zero.
proof fn lemma_clear_above(x: u32, k: int)
    requires
        0 <= k < 32,
        forall|j: int| k <= j < 32 ==> !x.bitseq()[j],
    ensures
        x >> (k as u32) == 0,
    decreases 32 - k,
{
    lemma_shift(x, k as u32, (k + 1) as u32);
    assert(!x.bitseq()[k]);
    if k < 31 {
        lemma_clear_above(x, k + 1);
    }
}

/// A value is zero exactly when none of its bits is set.
proof fn lemma_zero(x: u32)
    ensures
        (x == 0) == (count_true(x.bitseq()) == 0),
{
    lemma_count_true_zero(x.bitseq());
    if x == 0 {
        assert forall|i: int| 0 <= i < 32 implies !x.bitseq()[i] by {
            lemma_shift(x, i as u32, (i + 1) as u32);
        }
    }
    if count_true(x.bitseq()) == 0 {
        assert forall|j: int| 0 <= j < 32 implies !x.bitseq()[j] by {
            assert(!x.bitseq()[j]);
        }
        lemma_clear_above(x, 0);
        lemma_shift(x, 0, 1);
    }
}

/// A value is the complement of zero exactly when all of its bits are set.
proof fn lemma_ones(x: u32)
    ensures
        (x == !0u32) == (count_true(x.bitseq()) == 32),
{
    let y = !x;
    lemma_count_true_full(x.bitseq());
    lemma_count_true_zero(y.bitseq());
    lemma_zero(y);
    lemma_shift(x, 0, 1);
    assert forall|j: int| 0 <= j < 32 implies y.bitseq()[j] == !x.bitseq()[j] by {
        lemma_pairwise(x, x, j as u32);
    }
    if count_true(x.bitseq()) == 32 {
        assert forall|j: int| 0 <= j < 32 implies !y.bitseq()[j] by {
            assert(x.bitseq()[j]);
        }
    }
    if count_true(y.bitseq()) == 0 {
        assert forall|j: int| 0 <= j < 32 implies x.bitseq()[j] by {
            assert(!y.bitseq()[j]);
        }
    }
}

/// Calls `u32::count_ones`, which std documents as returning the number of
/// ones in the binary representation of its argument. Trusted: the contract
/// restates that over the bits of `x`.
#[verifier::external_body]
fn count_ones_of(x: u32) -> (r: u32)
    ensures
        r == count_true(x.bitseq()),
{
    u32::count_ones(x)
}

impl BitStore for u32 {
    open spec fn spec_bits() -> nat {
        32
    }

    open spec fn bitseq(&self) -> Seq<bool> {
        Seq::new(32, |i: int| (*self >> (i as u32)) & 1u32 == 1u32)
    }

    proof fn lemma_width(&self) {
    }

    #[inline]
    fn bits() -> (r: u32) {
        32
    }

    #[inline]
    fn checked_bits() -> (r: Option<u32>) {
        Some(32)
    }

    #[inline]
    fn get(&self, index: u32) -> (r: bool) {
        proof {
            lemma_single(*self, index, index as u32, 0);
        }
        (1 << index) & *self != 0
    }

    #[inline]
    fn count_ones(&self) -> (r: u32) {
        count_ones_of(*self)
    }

    #[inline]
    fn trailing_zeros(&self) -> (r: u32) {
        broadcast use vstd::std_specs::bits::group_bits_axioms;

        let r = u32::trailing_zeros(*self);
        proof {
            assert forall|j: int| 0 <= j < r implies self.bitseq()[j] == false by {
                let k = j as u32;
                assert((*self >> k) & 1u32 == 0u32);
            }
            lemma_low_run_unique(self.bitseq(), false, r as nat);
        }
        r
    }

    #[inline]
    fn trailing_ones(&self) -> (r: u32) {
        broadcast use vstd::std_specs::bits::group_bits_axioms;

        let r = u32::trailing_ones(*self);
        proof {
            assert forall|j: int| 0 <= j < r implies self.bitseq()[j] == true by {
                let k = j as u32;
                assert((*self >> k) & 1u32 == 1u32);
            }
            lemma_low_run_unique(self.bitseq(), true, r as nat);
        }
        r
    }

    #[inline]
    fn leading_zeros(&self) -> (r: u32) {
        broadcast use vstd::std_specs::bits::group_bits_axioms;

        let r = u32::leading_zeros(*self);
        proof {
            assert forall|j: int| 32 - r <= j < 32 implies self.bitseq()[j] == false by {
                let k = j as u32;
                assert((*self >> k) & 1u32 == 0u32);
            }
            if r < 32 {
                lemma_pairwise(*self, *self, (31 - r) as u32);
            }
            lemma_high_run_unique(self.bitseq(), false, r as nat);
        }
        r
    }

    #[inline]
    fn leading_ones(&self) -> (r: u32) {
        broadcast use vstd::std_specs::bits::group_bits_axioms;

        let r = u32::leading_ones(*self);
        proof {
            assert forall|j: int| 32 - r <= j < 32 implies self.bitseq()[j] == true by {
                let k = j as u32;
                assert((*self >> k) & 1u32 == 1u32);
            }
            lemma_high_run_unique(self.bitseq(), true, r as nat);
        }
        r
    }

    #[inline]
    fn is_empty(&self) -> (r: bool) {
        proof {
            lemma_zero(*self);
        }
        *self == 0
    }

    #[inline]
    fn is_full(&self) -> (r: bool) {
        proof {
            lemma_ones(*self);
        }
        *self == !0
    }
}

impl BitStoreMut for u32 {
    #[inline]
    fn set(&mut self, index: u32) {
        *self |= 1 << index;
        proof {
            let x = *old(self);
            let after = old(self).bitseq().update(index as int, true);
            assert forall|j: int| 0 <= j < 32 implies self.bitseq()[j] == after[j] by {
                lemma_single(x, index, index as u32, j as u32);
            }
            assert(self.bitseq() =~= after);
        }
    }

    #[inline]
    fn unset(&mut self, index: u32) {
        *self &= !(1 << index);
        proof {
            let x = *old(self);
            let after = old(self).bitseq().update(index as int, false);
            assert forall|j: int| 0 <= j < 32 implies self.bitseq()[j] == after[j] by {
                lemma_single(x, index, index as u32, j as u32);
            }
            assert(self.bitseq() =~= after);
        }
    }

    #[inline]
    fn union_with(&mut self, other: &Self) {
        *self |= *other;
        proof {
            let x = *old(self);
            let after = crate::model::union_bits(old(self).bitseq(), other.bitseq());
            assert forall|j: int| 0 <= j < 32 implies self.bitseq()[j] == after[j] by {
                lemma_pairwise(x, *other, j as u32);
            }
            assert(self.bitseq() =~= after);
        }
    }

    #[inline]
    fn intersect_with(&mut self, other: &Self) {
        *self &= *other;
        proof {
            let x = *old(self);
            let after = crate::model::intersect_bits(old(self).bitseq(), other.bitseq());
            assert forall|j: int| 0 <= j < 32 implies self.bitseq()[j] == after[j] by {
                lemma_pairwise(x, *other, j as u32);
            }
            assert(self.bitseq() =~= after);
        }
    }

    #[inline]
    fn difference_with(&mut self, other: &Self) {
        *self &= !*other;
        proof {
            let x = *old(self);
            let after = crate::model::difference_bits(old(self).bitseq(), other.bitseq());
            assert forall|j: int| 0 <= j < 32 implies self.bitseq()[j] == after[j] by {
                lemma_pairwise(x, *other, j as u32);
            }
            assert(self.bitseq() =~= after);
        }
    }

    #[inline]
    fn symmetric_difference_with(&mut self, other: &Self) {
        *self ^= *other;
        proof {
            let x = *old(self);
            let after = crate::model::symmetric_difference_bits(old(self).bitseq(), other.bitseq());
            assert forall|j: int| 0 <= j < 32 implies self.bitseq()[j] == after[j] by {
                lemma_pairwise(x, *other, j as u32);
            }
            assert(self.bitseq() =~= after);
        }
    }

    #[inline]
    fn negate(&mut self) {
        *self = !*self;
        proof {
            let x = *old(self);
            let after = crate::model::negate_bits(old(self).bitseq());
            assert forall|j: int| 0 <= j < 32 implies self.bitseq()[j] == after[j] by {
                lemma_pairwise(x, x, j as u32);
            }
            assert(self.bitseq() =~= after);
        }
    }
}

impl BitStoreConst for u32 {
    #[inline]
    fn empty() -> (r: Self) {
        proof {
            assert forall|j: int| 0 <= j < 32 implies !(0u32).bitseq()[j] by {
                lemma_shift(0, j as u32, (j + 1) as u32);
            }
            assert((0u32).bitseq() =~= crate::model::uniform(32, false));
        }
        0
    }

    #[inline]
    fn full() -> (r: Self) {
        proof {
            assert forall|j: int| 0 <= j < 32 implies (!0u32).bitseq()[j] by {
                lemma_shift(0, j as u32, (j + 1) as u32);
            }
            assert((!0u32).bitseq() =~= crate::model::uniform(32, true));
        }
        !0
    }
}

impl BitStoreClone for u32 {
    proof fn lemma_clone_keeps_bits(&self, copy: Self) {
    }

    proof fn lemma_bits_fix_value(&self, other: Self) {
        let x = *self;
        let d = x ^ other;
        assert forall|j: int| 0 <= j < 32 implies !d.bitseq()[j] by {
            lemma_pairwise(x, other, j as u32);
            assert(x.bitseq()[j] == other.bitseq()[j]);
        }
        lemma_count_true_zero(d.bitseq());
        lemma_zero(d);
        lemma_pairwise(x, other, 0);
    }
}

impl DefaultIsEmpty for u32 {
    proof fn lemma_default_is_empty(value: Self) {
        assert forall|j: int| 0 <= j < 32 implies !(0u32).bitseq()[j] by {
            lemma_shift(0, j as u32, (j + 1) as u32);
        }
        assert(value.bitseq() =~= crate::model::uniform(32, false));
    }
}

} // verus!
