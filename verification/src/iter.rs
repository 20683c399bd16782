//! A double-ended walk over the bits of a store.
use crate::store::BitStore;
use core::ops::Range;
use vstd::prelude::*;

verus! {

/// The bits of a store within a half-open range of indices, handed out one
/// by one from either end.
#[derive(Debug, Clone)]
pub struct Bits<S: BitStore> {
    bits: S,
    start: u32,
    end: u32,
}

impl<S: BitStore> View for Bits<S> {
    type V = Seq<bool>;

    /// The bits that are still to come, lowest index first.
    open spec fn view(&self) -> Seq<bool> {
        if self.front() < self.back() {
            self.store().subrange(self.front() as int, self.back() as int)
        } else {
            Seq::empty()
        }
    }
}

impl<S: BitStore> From<S> for Bits<S> {
    /// Walks over all bits of the store, as `new` does. Over a store that
    /// is wider than a `u32` can count, the walk is empty.
    #[inline]
    fn from(bits: S) -> (r: Self)
        ensures
            r.store() == bits.bitseq(),
            r.front() == 0,
            S::spec_bits() <= u32::MAX ==> r.wf() && r.back() == S::spec_bits() && r@
                == bits.bitseq(),
            S::spec_bits() > u32::MAX ==> r.back() == 0,
    {
        proof {
            bits.lemma_width();
            assert(bits.bitseq().subrange(0, S::spec_bits() as int) =~= bits.bitseq());
        }
        match S::checked_bits() {
            Some(end) => Self { bits, start: 0, end },
            None => Self { bits, start: 0, end: 0 },
        }
    }
}

impl<S: BitStore> vstd::std_specs::convert::FromSpecImpl<S> for Bits<S> {
    open spec fn obeys_from_spec() -> bool {
        S::spec_bits() <= u32::MAX
    }

    closed spec fn from_spec(bits: S) -> Self {
        Bits { bits, start: 0, end: S::spec_bits() as u32 }
    }
}

impl<S: BitStore> Bits<S> {
    /// The bits of the store that is walked over.
    pub closed spec fn store(&self) -> Seq<bool> {
        self.bits.bitseq()
    }

    /// The index that `next` hands out, if it is below `back`.
    pub closed spec fn front(&self) -> nat {
        self.start as nat
    }

    /// One more than the index that `next_back` hands out, if it is above
    /// `front`.
    pub closed spec fn back(&self) -> nat {
        self.end as nat
    }

    /// The range ends inside the store.
    pub open spec fn wf(&self) -> bool {
        &&& self.back() <= S::spec_bits() <= u32::MAX
        &&& self.store().len() == S::spec_bits()
    }

    /// Walks over all bits of the store.
    #[inline]
    pub fn new(bits: S) -> (r: Self)
        requires
            S::spec_bits() <= u32::MAX,
        ensures
            r.wf(),
            r.store() == bits.bitseq(),
            r.front() == 0,
            r.back() == S::spec_bits(),
            r@ == bits.bitseq(),
    {
        proof {
            bits.lemma_width();
            assert(bits.bitseq().subrange(0, S::spec_bits() as int) =~= bits.bitseq());
        }
        let end = S::bits();
        Self { bits, start: 0, end }
    }

    /// Walks over the bits whose indices lie in `range`, which must end
    /// inside the store.
    #[inline]
    pub fn with_range(bits: S, range: Range<u32>) -> (r: Self)
        requires
            S::spec_bits() <= u32::MAX,
            range.end <= S::spec_bits(),
        ensures
            r.wf(),
            r.store() == bits.bitseq(),
            r.front() == range.start,
            r.back() == range.end,
    {
        proof {
            bits.lemma_width();
        }
        Self { bits, start: range.start, end: range.end }
    }

    /// The same as `with_range`; the caller has checked the range already.
    #[inline]
    pub fn with_range_unchecked(bits: S, range: Range<u32>) -> (r: Self)
        requires
            S::spec_bits() <= u32::MAX,
            range.end <= S::spec_bits(),
        ensures
            r.wf(),
            r.store() == bits.bitseq(),
            r.front() == range.start,
            r.back() == range.end,
    {
        proof {
            bits.lemma_width();
        }
        Self { bits, start: range.start, end: range.end }
    }

    /// Hands out the bit at the low end of the range and shortens the range
    /// by it. An exhausted walk hands out nothing and stays as it is.
    pub fn next(&mut self) -> (r: Option<bool>)
        requires
            old(self).wf(),
        ensures
            final(self).wf(),
            final(self).store() == old(self).store(),
            final(self).back() == old(self).back(),
            old(self).front() < old(self).back() ==> r == Some(
                old(self).store()[old(self).front() as int],
            ) && final(self).front() == old(self).front() + 1,
            old(self).front() >= old(self).back() ==> r.is_none() && final(self).front() == old(
                self,
            ).front(),
            old(self)@.len() > 0 ==> r == Some(old(self)@[0]) && final(self)@ == old(
                self,
            )@.drop_first(),
            old(self)@.len() == 0 ==> r.is_none() && final(self)@ == old(self)@,
    {
        if self.start < self.end {
            let i = self.start;
            self.start = i + 1;
            proof {
                assert(self@ =~= old(self)@.drop_first());
            }
            Some(self.bits.get(i))
        } else {
            None
        }
    }

    /// Hands out the bit at the high end of the range and shortens the range
    /// by it. An exhausted walk hands out nothing and stays as it is.
    pub fn next_back(&mut self) -> (r: Option<bool>)
        requires
            old(self).wf(),
        ensures
            final(self).wf(),
            final(self).store() == old(self).store(),
            final(self).front() == old(self).front(),
            old(self).front() < old(self).back() ==> r == Some(
                old(self).store()[old(self).back() - 1],
            ) && final(self).back() == old(self).back() - 1,
            old(self).front() >= old(self).back() ==> r.is_none() && final(self).back() == old(
                self,
            ).back(),
            old(self)@.len() > 0 ==> r == Some(old(self)@.last()) && final(self)@ == old(
                self,
            )@.drop_last(),
            old(self)@.len() == 0 ==> r.is_none() && final(self)@ == old(self)@,
    {
        if self.start < self.end {
            let i = self.end - 1;
            self.end = i;
            proof {
                assert(self@ =~= old(self)@.drop_last());
            }
            Some(self.bits.get(i))
        } else {
            None
        }
    }

    /// The number of bits that are still to come, as both bounds of a hint.
    pub fn size_hint(&self) -> (r: (usize, Option<usize>))
        requires
            self.wf(),
        ensures
            r.0 == self@.len(),
            r.1 == Some(r.0),
    {
        let n = self.len();
        (n, Some(n))
    }

    /// The number of bits that are still to come.
    #[inline]
    pub fn len(&self) -> (r: usize)
        requires
            self.wf(),
        ensures
            r == self@.len(),
            r == if self.front() < self.back() {
                self.back() - self.front()
            } else {
                0
            },
    {
        if self.start < self.end {
            (self.end - self.start) as usize
        } else {
            0
        }
    }
}

} // verus!
