//! An array of stores as one larger store: bit `k` of the array is bit
//! `k % w` of element `k / w`, where `w` is the width of an element.
use crate::model::{
    count_true, difference_bits, high_run, intersect_bits, lemma_count_true_bound,
    lemma_count_true_concat, lemma_high_run_props, lemma_high_run_unique, lemma_low_run_props,
    lemma_low_run_unique, low_run, negate_bits, symmetric_difference_bits, uniform, union_bits,
};
use crate::store::{BitStore, BitStoreClone, BitStoreConst, BitStoreMut};
use vstd::arithmetic::div_mod::{
    lemma_fundamental_div_mod, lemma_fundamental_div_mod_converse, lemma_mod_pos_bound,
    lemma_multiply_divide_lt,
};
use vstd::prelude::*;

verus! {

/// Facts of arithmetic about element `i` of `n` elements of width `w`.
proof fn lemma_element(i: int, n: int, w: int)
    by (nonlinear_arith)
    requires
        0 <= i < n,
        0 <= w,
    ensures
        w <= n * w,
        0 <= i * w,
        (i + 1) * w == i * w + w,
        (i + 1) * w <= n * w,
        (n - i) * w == n * w - i * w,
        w > 0 ==> n <= n * w,
{
}

/// More than `u32::MAX / w` elements of width `w` are wider than `u32::MAX`.
proof fn lemma_too_wide(n: int, w: int)
    requires
        0 < w <= u32::MAX,
        n > (u32::MAX as int) / w,
    ensures
        n * w > u32::MAX,
{
    let q = u32::MAX as int / w;
    lemma_fundamental_div_mod(u32::MAX as int, w);
    lemma_mod_pos_bound(u32::MAX as int, w);
    assert(n * w >= (q + 1) * w) by (nonlinear_arith)
        requires
            n >= q + 1,
            w > 0,
    ;
    assert((q + 1) * w == w * q + w) by (nonlinear_arith);
}

/// At most `u32::MAX / w` elements of width `w` are no wider than `u32::MAX`.
proof fn lemma_wide_enough(n: int, w: int)
    requires
        0 < w <= u32::MAX,
        0 <= n <= (u32::MAX as int) / w,
    ensures
        n <= n * w <= u32::MAX,
{
    let q = u32::MAX as int / w;
    lemma_fundamental_div_mod(u32::MAX as int, w);
    lemma_mod_pos_bound(u32::MAX as int, w);
    assert(n * w <= q * w) by (nonlinear_arith)
        requires
            0 <= n <= q,
            w > 0,
    ;
    assert(q * w == w * q) by (nonlinear_arith);
    assert(n <= n * w) by (nonlinear_arith)
        requires
            0 <= n,
            w > 0,
    ;
}

/// Where bit `k` of an array lies.
proof fn lemma_cell<T: BitStore, const N: usize>(a: [T; N], k: int)
    requires
        0 <= k < N * T::spec_bits(),
    ensures
        0 < T::spec_bits() <= N * T::spec_bits(),
        0 <= k / (T::spec_bits() as int) < N,
        0 <= k % (T::spec_bits() as int) < T::spec_bits(),
        k == (k / (T::spec_bits() as int)) * T::spec_bits() + k % (T::spec_bits() as int),
        a@[k / (T::spec_bits() as int)].bitseq().len() == T::spec_bits(),
        a.bitseq()[k] == a@[k / (T::spec_bits() as int)].bitseq()[k % (T::spec_bits() as int)],
{
    let w = T::spec_bits() as int;
    let n = N as int;
    a@[k / w].lemma_width();
    assert(w > 0 && n > 0) by (nonlinear_arith)
        requires
            0 <= k < n * w,
            0 <= w,
            0 <= n,
    ;
    lemma_element(0, n, w);
    lemma_fundamental_div_mod(k, w);
    lemma_mod_pos_bound(k, w);
    assert(w * n == n * w) by (nonlinear_arith);
    lemma_multiply_divide_lt(k, w, n);
    assert(0 <= k / w) by (nonlinear_arith)
        requires
            0 <= k,
            0 < w,
    ;
    assert(w * (k / w) == (k / w) * w) by (nonlinear_arith);
}

/// Which bit of an array bit `j` of element `m` is.
proof fn lemma_at<T: BitStore, const N: usize>(a: [T; N], m: int, j: int)
    requires
        0 <= m < N,
        0 <= j < T::spec_bits(),
    ensures
        0 <= m * T::spec_bits() + j < N * T::spec_bits(),
        (m * T::spec_bits() + j) / (T::spec_bits() as int) == m,
        (m * T::spec_bits() + j) % (T::spec_bits() as int) == j,
        a@[m].bitseq().len() == T::spec_bits(),
        a.bitseq()[m * T::spec_bits() + j] == a@[m].bitseq()[j],
{
    let w = T::spec_bits() as int;
    a@[m].lemma_width();
    lemma_element(m, N as int, w);
    lemma_fundamental_div_mod_converse(m * w + j, w, m, j);
}

/// The bits below element `i + 1` are those below element `i` followed by
/// the bits of element `i`.
proof fn lemma_block<T: BitStore, const N: usize>(a: [T; N], i: int)
    requires
        0 <= i < N,
    ensures
        0 <= i * T::spec_bits() <= (i + 1) * T::spec_bits() <= N * T::spec_bits(),
        a.bitseq().take((i + 1) * T::spec_bits()) == a.bitseq().take(i * T::spec_bits())
            + a@[i].bitseq(),
{
    let w = T::spec_bits() as int;
    lemma_element(i, N as int, w);
    a@[i].lemma_width();
    let left = a.bitseq().take((i + 1) * w);
    let right = a.bitseq().take(i * w) + a@[i].bitseq();
    assert forall|k: int| 0 <= k < left.len() implies left[k] == right[k] by {
        if k >= i * w {
            lemma_at(a, i, k - i * w);
        }
    }
    assert(left =~= right);
}

/// The run at the low end of an array: the elements below `i` are runs as a
/// whole, and either `i` is the first element that is not, or there is none.
proof fn lemma_low_run_array<T: BitStore, const N: usize>(a: [T; N], value: bool, i: int, r: nat)
    requires
        0 <= i <= N,
        forall|m: int| 0 <= m < i ==> low_run(#[trigger] a@[m].bitseq(), value) == T::spec_bits(),
        i == N ==> r == N * T::spec_bits(),
        i < N ==> low_run(a@[i].bitseq(), value) < T::spec_bits() && r == i * T::spec_bits()
            + low_run(a@[i].bitseq(), value),
    ensures
        low_run(a.bitseq(), value) == r,
{
    let w = T::spec_bits() as int;
    let s = a.bitseq();
    if i < N {
        lemma_element(i, N as int, w);
    }
    assert forall|k: int| 0 <= k < r implies s[k] == value by {
        lemma_cell(a, k);
        let m = k / w;
        let j = k % w;
        lemma_low_run_props(a@[m].bitseq(), value);
        if m >= i {
            assert(m * w >= i * w) by (nonlinear_arith)
                requires
                    m >= i,
                    w >= 0,
            ;
            if m > i {
                assert(m * w >= (i + 1) * w) by (nonlinear_arith)
                    requires
                        m >= i + 1,
                        w >= 0,
                ;
            }
        }
    }
    if r < s.len() {
        let t = low_run(a@[i].bitseq(), value) as int;
        lemma_low_run_props(a@[i].bitseq(), value);
        lemma_at(a, i, t);
    }
    lemma_low_run_unique(s, value, r);
}

/// The run at the high end of an array: the elements from `i` upward are runs
/// as a whole, and either `i - 1` is the first element below them that is
/// not, or there is none.
proof fn lemma_high_run_array<T: BitStore, const N: usize>(a: [T; N], value: bool, i: int, r: nat)
    requires
        0 <= i <= N,
        forall|m: int| i <= m < N ==> high_run(#[trigger] a@[m].bitseq(), value) == T::spec_bits(),
        i == 0 ==> r == N * T::spec_bits(),
        i > 0 ==> high_run(a@[i - 1].bitseq(), value) < T::spec_bits() && r == (N - i)
            * T::spec_bits() + high_run(a@[i - 1].bitseq(), value),
    ensures
        high_run(a.bitseq(), value) == r,
{
    let w = T::spec_bits() as int;
    let n = N as int;
    let s = a.bitseq();
    if i > 0 {
        lemma_element(i - 1, n, w);
        assert((n - i) * w == n * w - i * w) by (nonlinear_arith);
    }
    assert forall|k: int| s.len() - r <= k < s.len() implies s[k] == value by {
        lemma_cell(a, k);
        let m = k / w;
        let j = k % w;
        lemma_high_run_props(a@[m].bitseq(), value);
        if m < i {
            assert(m * w <= (i - 1) * w) by (nonlinear_arith)
                requires
                    m <= i - 1,
                    w >= 0,
            ;
            if m < i - 1 {
                assert((m + 1) * w <= (i - 1) * w) by (nonlinear_arith)
                    requires
                        m + 1 <= i - 1,
                        w >= 0,
                ;
                assert((m + 1) * w == m * w + w) by (nonlinear_arith);
            }
        }
    }
    if r < s.len() {
        let t = high_run(a@[i - 1].bitseq(), value) as int;
        lemma_high_run_props(a@[i - 1].bitseq(), value);
        lemma_at(a, i - 1, w - t - 1);
    }
    lemma_high_run_unique(s, value, r);
}

impl<T: BitStore, const N: usize> BitStore for [T; N] {
    open spec fn spec_bits() -> nat {
        N as nat * T::spec_bits()
    }

    open spec fn bitseq(&self) -> Seq<bool> {
        Seq::new(
            N as nat * T::spec_bits(),
            |k: int| self@[k / (T::spec_bits() as int)].bitseq()[k % (T::spec_bits() as int)],
        )
    }

    proof fn lemma_width(&self) {
    }

    fn bits() -> (r: u32) {
        if N == 0 {
            0
        } else {
            proof {
                lemma_element(0, N as int, T::spec_bits() as int);
            }
            let width = T::bits();
            proof {
                let n = N as u32;
                assert(n * width == N * T::spec_bits()) by (nonlinear_arith)
                    requires
                        width == T::spec_bits(),
                        width == 0 || n == N,
                ;
            }
            N as u32 * width
        }
    }

    fn checked_bits() -> (r: Option<u32>) {
        if N == 0 {
            return Some(0);
        }
        match T::checked_bits() {
            None => {
                proof {
                    lemma_element(0, N as int, T::spec_bits() as int);
                }
                None
            },
            Some(width) => {
                if width == 0 {
                    Some(0)
                } else if N > (u32::MAX / width) as usize {
                    proof {
                        lemma_too_wide(N as int, width as int);
                    }
                    None
                } else {
                    proof {
                        lemma_wide_enough(N as int, width as int);
                    }
                    Some(N as u32 * width)
                }
            },
        }
    }

    #[inline]
    fn get(&self, index: u32) -> (r: bool) {
        proof {
            lemma_cell(*self, index as int);
        }
        let (i, j) = (index / T::bits(), index % T::bits());
        self[i as usize].get(j)
    }

    fn count_ones(&self) -> (r: u32) {
        let mut result: u32 = 0;
        let mut i: usize = 0;
        while i < N
            invariant
                i <= N,
                Self::spec_bits() <= u32::MAX,
                0 <= i * T::spec_bits() <= N * T::spec_bits(),
                result == count_true(self.bitseq().take(i * T::spec_bits())),
            decreases N - i,
        {
            proof {
                lemma_element(i as int, N as int, T::spec_bits() as int);
                lemma_block(*self, i as int);
                lemma_count_true_concat(
                    self.bitseq().take(i * T::spec_bits()),
                    self@[i as int].bitseq(),
                );
                lemma_count_true_bound(self.bitseq().take((i + 1) * T::spec_bits()));
            }
            result += self[i].count_ones();
            i += 1;
        }
        assert(self.bitseq().take(N * T::spec_bits()) =~= self.bitseq());
        result
    }

    fn trailing_zeros(&self) -> (r: u32) {
        let mut result: u32 = 0;
        let mut i: usize = 0;
        while i < N
            invariant
                i <= N,
                Self::spec_bits() <= u32::MAX,
                result == i * T::spec_bits(),
                forall|m: int|
                    0 <= m < i ==> low_run(#[trigger] self@[m].bitseq(), false) == T::spec_bits(),
            decreases N - i,
        {
            proof {
                lemma_element(i as int, N as int, T::spec_bits() as int);
                self@[i as int].lemma_width();
                lemma_low_run_props(self@[i as int].bitseq(), false);
            }
            let trailing = self[i].trailing_zeros();
            result += trailing;
            if trailing != T::bits() {
                proof {
                    lemma_low_run_array(*self, false, i as int, result as nat);
                }
                return result;
            }
            i += 1;
        }
        proof {
            lemma_low_run_array(*self, false, N as int, result as nat);
        }
        result
    }

    fn trailing_ones(&self) -> (r: u32) {
        let mut result: u32 = 0;
        let mut i: usize = 0;
        while i < N
            invariant
                i <= N,
                Self::spec_bits() <= u32::MAX,
                result == i * T::spec_bits(),
                forall|m: int|
                    0 <= m < i ==> low_run(#[trigger] self@[m].bitseq(), true) == T::spec_bits(),
            decreases N - i,
        {
            proof {
                lemma_element(i as int, N as int, T::spec_bits() as int);
                self@[i as int].lemma_width();
                lemma_low_run_props(self@[i as int].bitseq(), true);
            }
            let trailing = self[i].trailing_ones();
            result += trailing;
            if trailing != T::bits() {
                proof {
                    lemma_low_run_array(*self, true, i as int, result as nat);
                }
                return result;
            }
            i += 1;
        }
        proof {
            lemma_low_run_array(*self, true, N as int, result as nat);
        }
        result
    }

    fn leading_zeros(&self) -> (r: u32) {
        let mut result: u32 = 0;
        let mut i: usize = N;
        while i > 0
            invariant
                i <= N,
                Self::spec_bits() <= u32::MAX,
                result == (N - i) * T::spec_bits(),
                forall|m: int|
                    i <= m < N ==> high_run(#[trigger] self@[m].bitseq(), false) == T::spec_bits(),
            decreases i,
        {
            proof {
                lemma_element(N - i, N as int, T::spec_bits() as int);
                self@[i - 1].lemma_width();
                lemma_high_run_props(self@[i - 1].bitseq(), false);
            }
            let leading = self[i - 1].leading_zeros();
            result += leading;
            if leading != T::bits() {
                proof {
                    lemma_high_run_array(*self, false, i as int, result as nat);
                }
                return result;
            }
            i -= 1;
        }
        proof {
            lemma_high_run_array(*self, false, 0, result as nat);
        }
        result
    }

    fn leading_ones(&self) -> (r: u32) {
        let mut result: u32 = 0;
        let mut i: usize = N;
        while i > 0
            invariant
                i <= N,
                Self::spec_bits() <= u32::MAX,
                result == (N - i) * T::spec_bits(),
                forall|m: int|
                    i <= m < N ==> high_run(#[trigger] self@[m].bitseq(), true) == T::spec_bits(),
            decreases i,
        {
            proof {
                lemma_element(N - i, N as int, T::spec_bits() as int);
                self@[i - 1].lemma_width();
                lemma_high_run_props(self@[i - 1].bitseq(), true);
            }
            let leading = self[i - 1].leading_ones();
            result += leading;
            if leading != T::bits() {
                proof {
                    lemma_high_run_array(*self, true, i as int, result as nat);
                }
                return result;
            }
            i -= 1;
        }
        proof {
            lemma_high_run_array(*self, true, 0, result as nat);
        }
        result
    }
}

impl<T: BitStoreMut, const N: usize> BitStoreMut for [T; N] {
    #[inline]
    fn set(&mut self, index: u32) {
        proof {
            lemma_cell(*self, index as int);
        }
        let (i, j) = (index / T::bits(), index % T::bits());
        self[i as usize].set(j);
        proof {
            let after = old(self).bitseq().update(index as int, true);
            assert forall|k: int| 0 <= k < N * T::spec_bits() implies self.bitseq()[k]
                == after[k] by {
                lemma_cell(*self, k);
                lemma_cell(*old(self), k);
            }
            assert(self.bitseq() =~= after);
        }
    }

    #[inline]
    fn unset(&mut self, index: u32) {
        proof {
            lemma_cell(*self, index as int);
        }
        let (i, j) = (index / T::bits(), index % T::bits());
        self[i as usize].unset(j);
        proof {
            let after = old(self).bitseq().update(index as int, false);
            assert forall|k: int| 0 <= k < N * T::spec_bits() implies self.bitseq()[k]
                == after[k] by {
                lemma_cell(*self, k);
                lemma_cell(*old(self), k);
            }
            assert(self.bitseq() =~= after);
        }
    }

    fn union_with(&mut self, other: &Self) {
        let mut i: usize = 0;
        while i < N
            invariant
                i <= N,
                forall|m: int|
                    0 <= m < i ==> (#[trigger] self@[m]).bitseq() == union_bits(
                        old(self)@[m].bitseq(),
                        other@[m].bitseq(),
                    ),
                forall|m: int| i <= m < N ==> #[trigger] self@[m] == old(self)@[m],
            decreases N - i,
        {
            self[i].union_with(&other[i]);
            i += 1;
        }
        proof {
            let after = union_bits(old(self).bitseq(), other.bitseq());
            assert forall|k: int| 0 <= k < N * T::spec_bits() implies self.bitseq()[k]
                == after[k] by {
                lemma_cell(*self, k);
                lemma_cell(*old(self), k);
                lemma_cell(*other, k);
            }
            assert(self.bitseq() =~= after);
        }
    }

    fn intersect_with(&mut self, other: &Self) {
        let mut i: usize = 0;
        while i < N
            invariant
                i <= N,
                forall|m: int|
                    0 <= m < i ==> (#[trigger] self@[m]).bitseq() == intersect_bits(
                        old(self)@[m].bitseq(),
                        other@[m].bitseq(),
                    ),
                forall|m: int| i <= m < N ==> #[trigger] self@[m] == old(self)@[m],
            decreases N - i,
        {
            self[i].intersect_with(&other[i]);
            i += 1;
        }
        proof {
            let after = intersect_bits(old(self).bitseq(), other.bitseq());
            assert forall|k: int| 0 <= k < N * T::spec_bits() implies self.bitseq()[k]
                == after[k] by {
                lemma_cell(*self, k);
                lemma_cell(*old(self), k);
                lemma_cell(*other, k);
            }
            assert(self.bitseq() =~= after);
        }
    }

    fn difference_with(&mut self, other: &Self) {
        let mut i: usize = 0;
        while i < N
            invariant
                i <= N,
                forall|m: int|
                    0 <= m < i ==> (#[trigger] self@[m]).bitseq() == difference_bits(
                        old(self)@[m].bitseq(),
                        other@[m].bitseq(),
                    ),
                forall|m: int| i <= m < N ==> #[trigger] self@[m] == old(self)@[m],
            decreases N - i,
        {
            self[i].difference_with(&other[i]);
            i += 1;
        }
        proof {
            let after = difference_bits(old(self).bitseq(), other.bitseq());
            assert forall|k: int| 0 <= k < N * T::spec_bits() implies self.bitseq()[k]
                == after[k] by {
                lemma_cell(*self, k);
                lemma_cell(*old(self), k);
                lemma_cell(*other, k);
            }
            assert(self.bitseq() =~= after);
        }
    }

    fn symmetric_difference_with(&mut self, other: &Self) {
        let mut i: usize = 0;
        while i < N
            invariant
                i <= N,
                forall|m: int|
                    0 <= m < i ==> (#[trigger] self@[m]).bitseq() == symmetric_difference_bits(
                        old(self)@[m].bitseq(),
                        other@[m].bitseq(),
                    ),
                forall|m: int| i <= m < N ==> #[trigger] self@[m] == old(self)@[m],
            decreases N - i,
        {
            self[i].symmetric_difference_with(&other[i]);
            i += 1;
        }
        proof {
            let after = symmetric_difference_bits(old(self).bitseq(), other.bitseq());
            assert forall|k: int| 0 <= k < N * T::spec_bits() implies self.bitseq()[k]
                == after[k] by {
                lemma_cell(*self, k);
                lemma_cell(*old(self), k);
                lemma_cell(*other, k);
            }
            assert(self.bitseq() =~= after);
        }
    }

    fn negate(&mut self) {
        let mut i: usize = 0;
        while i < N
            invariant
                i <= N,
                forall|m: int|
                    0 <= m < i ==> (#[trigger] self@[m]).bitseq() == negate_bits(
                        old(self)@[m].bitseq(),
                    ),
                forall|m: int| i <= m < N ==> #[trigger] self@[m] == old(self)@[m],
            decreases N - i,
        {
            self[i].negate();
            i += 1;
        }
        proof {
            let after = negate_bits(old(self).bitseq());
            assert forall|k: int| 0 <= k < N * T::spec_bits() implies self.bitseq()[k]
                == after[k] by {
                lemma_cell(*self, k);
                lemma_cell(*old(self), k);
            }
            assert(self.bitseq() =~= after);
        }
    }
}

impl<T: BitStoreConst + Copy, const N: usize> BitStoreConst for [T; N] {
    fn empty() -> (r: Self) {
        let r = [T::empty(); N];
        proof {
            let after = uniform(Self::spec_bits(), false);
            assert forall|k: int| 0 <= k < N * T::spec_bits() implies r.bitseq()[k] == after[k] by {
                lemma_cell(r, k);
            }
            assert(r.bitseq() =~= after);
        }
        r
    }

    fn full() -> (r: Self) {
        let r = [T::full(); N];
        proof {
            let after = uniform(Self::spec_bits(), true);
            assert forall|k: int| 0 <= k < N * T::spec_bits() implies r.bitseq()[k] == after[k] by {
                lemma_cell(r, k);
            }
            assert(r.bitseq() =~= after);
        }
        r
    }
}

impl<T: BitStoreClone, const N: usize> BitStoreClone for [T; N] {
    proof fn lemma_clone_keeps_bits(&self, copy: Self) {
        assert forall|k: int| 0 <= k < N * T::spec_bits() implies copy.bitseq()[k]
            == self.bitseq()[k] by {
            lemma_cell(*self, k);
            let m = k / (T::spec_bits() as int);
            assert(cloned::<T>(self@[m], copy@[m]));
            self@[m].lemma_clone_keeps_bits(copy@[m]);
        }
        assert(copy.bitseq() =~= self.bitseq());
    }

    proof fn lemma_bits_fix_value(&self, other: Self) {
        assert forall|m: int| 0 <= m < N implies self@[m] == other@[m] by {
            let a = self@[m].bitseq();
            let b = other@[m].bitseq();
            self@[m].lemma_width();
            other@[m].lemma_width();
            assert forall|j: int| 0 <= j < T::spec_bits() implies a[j] == b[j] by {
                lemma_at(*self, m, j);
                lemma_at(other, m, j);
            }
            assert(a =~= b);
            self@[m].lemma_bits_fix_value(other@[m]);
        }
        assert(*self =~= other);
    }
}

} // verus!
