//! `u8` as a store of 8 bits: bit `i` is the binary digit of weight `2^i`.
use crate::model::{
    count_true, lemma_count_true_full, lemma_count_true_zero, lemma_high_run_unique,
    lemma_low_run_unique,
};
use crate::store::{BitStore, BitStoreClone, BitStoreConst, BitStoreMut, DefaultIsEmpty};
use vstd::prelude::*;

verus! {

/// How one bit of `x` reads after the bit `i` has been set or cleared.
proof fn lemma_single(x: u8, i: u32, k: u8, j: u8)
    by (bit_vector)
    requires
        i < 8,
        k == i,
        j < 8,
    ensures
        ((1u8 << i) & x != 0) == ((x >> k) & 1u8 == 1u8),
        (((x | (1u8 << i)) >> j) & 1u8 == 1u8) == (j == k || (x >> j) & 1u8 == 1u8),
        (((x & !(1u8 << i)) >> j) & 1u8 == 1u8) == (j != k && (x >> j) & 1u8 == 1u8),
{
}

/// How one bit of a bitwise combination of `x` and `y` reads.
proof fn lemma_pairwise(x: u8, y: u8, j: u8)
    by (bit_vector)
    requires
        j < 8,
    ensures
        (((x | y) >> j) & 1u8 == 1u8) == ((x >> j) & 1u8 == 1u8 || (y >> j) & 1u8 == 1u8),
        (((x & y) >> j) & 1u8 == 1u8) == ((x >> j) & 1u8 == 1u8 && (y >> j) & 1u8 == 1u8),
        (((x & !y) >> j) & 1u8 == 1u8) == ((x >> j) & 1u8 == 1u8 && (y >> j) & 1u8 != 1u8),
        (((x ^ y) >> j) & 1u8 == 1u8) == (((x >> j) & 1u8 == 1u8) != ((y >> j) & 1u8
            == 1u8)),
        (((!x) >> j) & 1u8 == 1u8) == ((x >> j) & 1u8 != 1u8),
        (x >> j) & 1u8 == 0u8 || (x >> j) & 1u8 == 1u8,
        x ^ y == 0 ==> x == y,
{
}

/// The bits of zero and of its complement, and how `x >> j` is zero once
/// bit `j` and everything above it are.
proof fn lemma_shift(x: u8, j: u8, above: u8)
    by (bit_vector)
    requires
        j < 8,
        above == j + 1,
    ensures
        (0u8 >> j) & 1u8 != 1u8,
        ((!0u8) >> j) & 1u8 == 1u8,
        (j == 7 && (x >> j) & 1u8 != 1u8) ==> x >> j == 0,
        (j < 7 && x >> above == 0 && (x >> j) & 1u8 != 1u8) ==> x >> j == 0,
        x >> 0 == x,
        (!x == 0) == (x == !0u8),
{
}

/// With no bit set at index `k` or above, `x >> k` is zero.
proof fn lemma_clear_above(x: u8, k: int)
    requires
        0 <= k < 8,
        forall|j: int| k <= j < 8 ==> !x.bitseq()[j],
    ensures
        x >> (k as u8) == 0,
    decreases 8 - k,
{
    lemma_shift(x, k as u8, (k + 1) as u8);
    assert(!x.bitseq()[k]);
    if k < 7 {
        lemma_clear_above(x, k + 1);
    }
}

/// A value is zero exactly when none of its bits is set.
proof fn lemma_zero(x: u8)
    ensures
        (x == 0) == (count_true(x.bitseq()) == 0),
{
    lemma_count_true_zero(x.bitseq());
    if x == 0 {
        assert forall|i: int| 0 <= i < 8 implies !x.bitseq()[i] by {
            lemma_shift(x, i as u8, (i + 1) as u8);
        }
    }
    if count_true(x.bitseq()) == 0 {
        assert forall|j: int| 0 <= j < 8 implies !x.bitseq()[j] by {
            assert(!x.bitseq()[j]);
        }
        lemma_clear_above(x, 0);
        lemma_shift(x, 0, 1);
    }
}

/// A value is the complement of zero exactly when all of its bits are set.
proof fn lemma_ones(x: u8)
    ensures
        (x == !0u8) == (count_true(x.bitseq()) == 8),
{
    let y = !x;
    lemma_count_true_full(x.bitseq());
    lemma_count_true_zero(y.bitseq());
    lemma_zero(y);
    lemma_shift(x, 0, 1);
    assert forall|j: int| 0 <= j < 8 implies y.bitseq()[j] == !x.bitseq()[j] by {
        lemma_pairwise(x, x, j as u8);
    }
    if count_true(x.bitseq()) == 8 {
        assert forall|j: int| 0 <= j < 8 implies !y.bitseq()[j] by {
            assert(x.bitseq()[j]);
        }
    }
    if count_true(y.bitseq()) == 0 {
        assert forall|j: int| 0 <= j < 8 implies x.bitseq()[j] by {
            assert(!y.bitseq()[j]);
        }
    }
}

/// Calls `u8::count_ones`, which std documents as returning the number of
/// ones in the binary representation of its argument. Trusted: the contract
/// restates that over the bits of `x`.
#[verifier::external_body]
fn count_ones_of(x: u8) -> (r: u32)
    ensures
        r == count_true(x.bitseq()),
{
    u8::count_ones(x)
}

impl BitStore for u8 {
    open spec fn spec_bits() -> nat {
        8
    }

    open spec fn bitseq(&self) -> Seq<bool> {
        Seq::new(8, |i: int| (*self >> (i as u8)) & 1u8 == 1u8)
    }

    proof fn lemma_width(&self) {
    }

    #[inline]
    fn bits() -> (r: u32) {
        8
    }

    #[inline]
    fn checked_bits() -> (r: Option<u32>) {
        Some(8)
    }

    #[inline]
    fn get(&self, index: u32) -> (r: bool) {
        proof {
            lemma_single(*self, index, index as u8, 0);
        }
        (1 << index) & *self != 0
    }

    #[inline]
    fn count_ones(&self) -> (r: u32) {
        count_ones_of(*self)
    }

    #[inline]
    fn trailing_zeros(&self) -> (r: u32) {
        broadcast use vstd::std_specs::bits::group_bits_axioms;

        let r = u8::trailing_zeros(*self);
        proof {
            assert forall|j: int| 0 <= j < r implies self.bitseq()[j] == false by {
                let k = j as u8;
                assert((*self >> k) & 1u8 == 0u8);
            }
            lemma_low_run_unique(self.bitseq(), false, r as nat);
        }
        r
    }

    #[inline]
    fn trailing_ones(&self) -> (r: u32) {
        broadcast use vstd::std_specs::bits::group_bits_axioms;

        let r = u8::trailing_ones(*self);
        proof {
            assert forall|j: int| 0 <= j < r implies self.bitseq()[j] == true by {
                let k = j as u8;
                assert((*self >> k) & 1u8 == 1u8);
            }
            lemma_low_run_unique(self.bitseq(), true, r as nat);
        }
        r
    }

    #[inline]
    fn leading_zeros(&self) -> (r: u32) {
        broadcast use vstd::std_specs::bits::group_bits_axioms;

        let r = u8::leading_zeros(*self);
        proof {
            assert forall|j: int| 8 - r <= j < 8 implies self.bitseq()[j] == false by {
                let k = j as u8;
                assert((*self >> k) & 1u8 == 0u8);
            }
            if r < 8 {
                lemma_pairwise(*self, *self, (7 - r) as u8);
            }
            lemma_high_run_unique(self.bitseq(), false, r as nat);
        }
        r
    }

    #[inline]
    fn leading_ones(&self) -> (r: u32) {
        broadcast use vstd::std_specs::bits::group_bits_axioms;

        let r = u8::leading_ones(*self);
        proof {
            assert forall|j: int| 8 - r <= j < 8 implies self.bitseq()[j] == true by {
                let k = j as u8;
                assert((*self >> k) & 1u8 == 1u8);
            }
            lemma_high_run_unique(self.bitseq(), true, r as nat);
        }
        r
    }

    #[inline]
    fn is_empty(&self) -> (r: bool) {
        proof {
            lemma_zero(*self);
        }
        *self == 0
    }

    #[inline]
    fn is_full(&self) -> (r: bool) {
        proof {
            lemma_ones(*self);
        }
        *self == !0
    }
}

impl BitStoreMut for u8 {
    #[inline]
    fn set(&mut self, index: u32) {
        *self |= 1 << index;
        proof {
            let x = *old(self);
            let after = old(self).bitseq().update(index as int, true);
            assert forall|j: int| 0 <= j < 8 implies self.bitseq()[j] == after[j] by {
                lemma_single(x, index, index as u8, j as u8);
            }
            assert(self.bitseq() =~= after);
        }
    }

    #[inline]
    fn unset(&mut self, index: u32) {
        *self &= !(1 << index);
        proof {
            let x = *old(self);
            let after = old(self).bitseq().update(index as int, false);
            assert forall|j: int| 0 <= j < 8 implies self.bitseq()[j] == after[j] by {
                lemma_single(x, index, index as u8, j as u8);
            }
            assert(self.bitseq() =~= after);
        }
    }

    #[inline]
    fn union_with(&mut self, other: &Self) {
        *self |= *other;
        proof {
            let x = *old(self);
            let after = crate::model::union_bits(old(self).bitseq(), other.bitseq());
            assert forall|j: int| 0 <= j < 8 implies self.bitseq()[j] == after[j] by {
                lemma_pairwise(x, *other, j as u8);
            }
            assert(self.bitseq() =~= after);
        }
    }

    #[inline]
    fn intersect_with(&mut self, other: &Self) {
        *self &= *other;
        proof {
            let x = *old(self);
            let after = crate::model::intersect_bits(old(self).bitseq(), other.bitseq());
            assert forall|j: int| 0 <= j < 8 implies self.bitseq()[j] == after[j] by {
                lemma_pairwise(x, *other, j as u8);
            }
            assert(self.bitseq() =~= after);
        }
    }

    #[inline]
    fn difference_with(&mut self, other: &Self) {
        *self &= !*other;
        proof {
            let x = *old(self);
            let after = crate::model::difference_bits(old(self).bitseq(), other.bitseq());
            assert forall|j: int| 0 <= j < 8 implies self.bitseq()[j] == after[j] by {
                lemma_pairwise(x, *other, j as u8);
            }
            assert(self.bitseq() =~= after);
        }
    }

    #[inline]
    fn symmetric_difference_with(&mut self, other: &Self) {
        *self ^= *other;
        proof {
            let x = *old(self);
            let after = crate::model::symmetric_difference_bits(old(self).bitseq(), other.bitseq());
            assert forall|j: int| 0 <= j < 8 implies self.bitseq()[j] == after[j] by {
                lemma_pairwise(x, *other, j as u8);
            }
            assert(self.bitseq() =~= after);
        }
    }

    #[inline]
    fn negate(&mut self) {
        *self = !*self;
        proof {
            let x = *old(self);
            let after = crate::model::negate_bits(old(self).bitseq());
            assert forall|j: int| 0 <= j < 8 implies self.bitseq()[j] == after[j] by {
                lemma_pairwise(x, x, j as u8);
            }
            assert(self.bitseq() =~= after);
        }
    }
}

impl BitStoreConst for u8 {
    #[inline]
    fn empty() -> (r: Self) {
        proof {
            assert forall|j: int| 0 <= j < 8 implies !(0u8).bitseq()[j] by {
                lemma_shift(0, j as u8, (j + 1) as u8);
            }
            assert((0u8).bitseq() =~= crate::model::uniform(8, false));
        }
        0
    }

    #[inline]
    fn full() -> (r: Self) {
        proof {
            assert forall|j: int| 0 <= j < 8 implies (!0u8).bitseq()[j] by {
                lemma_shift(0, j as u8, (j + 1) as u8);
            }
            assert((!0u8).bitseq() =~= crate::model::uniform(8, true));
        }
        !0
    }
}

impl BitStoreClone for u8 {
    proof fn lemma_clone_keeps_bits(&self, copy: Self) {
    }

    proof fn lemma_bits_fix_value(&self, other: Self) {
        let x = *self;
        let d = x ^ other;
        assert forall|j: int| 0 <= j < 8 implies !d.bitseq()[j] by {
            lemma_pairwise(x, other, j as u8);
            assert(x.bitseq()[j] == other.bitseq()[j]);
        }
        lemma_count_true_zero(d.bitseq());
        lemma_zero(d);
        lemma_pairwise(x, other, 0);
    }
}

impl DefaultIsEmpty for u8 {
    proof fn lemma_default_is_empty(value: Self) {
        assert forall|j: int| 0 <= j < 8 implies !(0u8).bitseq()[j] by {
            lemma_shift(0, j as u8, (j + 1) as u8);
        }
        assert(value.bitseq() =~= crate::model::uniform(8, false));
    }
}

} // verus!
