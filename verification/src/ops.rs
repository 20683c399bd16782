//! Operator sugar for [`BitSet`]: each operator is a thin alias of the
//! method of the same meaning. The set that an operator returns is the one
//! set whose bits are the combination of the bits of its operands.
use crate::model::{
    difference_bits, intersect_bits, negate_bits, symmetric_difference_bits, union_bits,
};
use crate::store::{BitStoreClone, BitStoreMut};
use crate::BitSet;
use vstd::prelude::*;

verus! {

/// The set that holds the given bits. Over a store of plain values there is
/// at most one.
pub open spec fn the_set_with<S: BitStoreClone>(bits: Seq<bool>) -> BitSet<S> {
    choose|r: BitSet<S>| r@ == bits
}

impl<S: BitStoreMut + BitStoreClone> core::ops::Neg for BitSet<S> {
    type Output = Self;

    /// `-a` is the negation of `a`.
    #[inline]
    fn neg(self) -> (r: Self)
        ensures
            r@ == negate_bits(self@),
    {
        let r = self.negation();
        proof {
            r.lemma_view_fixes_value(the_set_with(negate_bits(self@)));
        }
        r
    }
}

impl<S: BitStoreMut + BitStoreClone> vstd::std_specs::ops::NegSpecImpl for BitSet<S> {
    open spec fn obeys_neg_spec() -> bool {
        true
    }

    open spec fn neg_req(self) -> bool {
        true
    }

    open spec fn neg_spec(self) -> Self {
        the_set_with(negate_bits(self@))
    }
}

impl<S: BitStoreMut + BitStoreClone> core::ops::BitAnd for BitSet<S> {
    type Output = Self;

    /// `a & b` is the intersection of `a` and `b`.
    #[inline]
    fn bitand(self, rhs: Self) -> (r: Self)
        ensures
            r@ == intersect_bits(self@, rhs@),
    {
        let r = self.intersection(&rhs);
        proof {
            r.lemma_view_fixes_value(the_set_with(intersect_bits(self@, rhs@)));
        }
        r
    }
}

impl<S: BitStoreMut + BitStoreClone> vstd::std_specs::ops::BitAndSpecImpl for BitSet<S> {
    open spec fn obeys_bitand_spec() -> bool {
        true
    }

    open spec fn bitand_req(self, rhs: Self) -> bool {
        true
    }

    open spec fn bitand_spec(self, rhs: Self) -> Self {
        the_set_with(intersect_bits(self@, rhs@))
    }
}

impl<S: BitStoreMut> core::ops::BitAndAssign for BitSet<S> {
    /// `a &= b` replaces `a` by the intersection of `a` and `b`.
    #[inline]
    fn bitand_assign(&mut self, rhs: Self)
        ensures
            final(self)@ == intersect_bits(old(self)@, rhs@),
    {
        self.intersect_with(&rhs);
    }
}

impl<S: BitStoreMut + BitStoreClone> core::ops::BitOr for BitSet<S> {
    type Output = Self;

    /// `a | b` is the union of `a` and `b`.
    #[inline]
    fn bitor(self, rhs: Self) -> (r: Self)
        ensures
            r@ == union_bits(self@, rhs@),
    {
        let r = self.union(&rhs);
        proof {
            r.lemma_view_fixes_value(the_set_with(union_bits(self@, rhs@)));
        }
        r
    }
}

impl<S: BitStoreMut + BitStoreClone> vstd::std_specs::ops::BitOrSpecImpl for BitSet<S> {
    open spec fn obeys_bitor_spec() -> bool {
        true
    }

    open spec fn bitor_req(self, rhs: Self) -> bool {
        true
    }

    open spec fn bitor_spec(self, rhs: Self) -> Self {
        the_set_with(union_bits(self@, rhs@))
    }
}

impl<S: BitStoreMut> core::ops::BitOrAssign for BitSet<S> {
    /// `a |= b` replaces `a` by the union of `a` and `b`.
    #[inline]
    fn bitor_assign(&mut self, rhs: Self)
        ensures
            final(self)@ == union_bits(old(self)@, rhs@),
    {
        self.union_with(&rhs);
    }
}

impl<S: BitStoreMut + BitStoreClone> core::ops::BitXor for BitSet<S> {
    type Output = Self;

    /// `a ^ b` is the symmetric difference of `a` and `b`.
    #[inline]
    fn bitxor(self, rhs: Self) -> (r: Self)
        ensures
            r@ == symmetric_difference_bits(self@, rhs@),
    {
        let r = self.symmetric_difference(&rhs);
        proof {
            r.lemma_view_fixes_value(the_set_with(symmetric_difference_bits(self@, rhs@)));
        }
        r
    }
}

impl<S: BitStoreMut + BitStoreClone> vstd::std_specs::ops::BitXorSpecImpl for BitSet<S> {
    open spec fn obeys_bitxor_spec() -> bool {
        true
    }

    open spec fn bitxor_req(self, rhs: Self) -> bool {
        true
    }

    open spec fn bitxor_spec(self, rhs: Self) -> Self {
        the_set_with(symmetric_difference_bits(self@, rhs@))
    }
}

impl<S: BitStoreMut> core::ops::BitXorAssign for BitSet<S> {
    /// `a ^= b` replaces `a` by the symmetric difference of `a` and `b`.
    #[inline]
    fn bitxor_assign(&mut self, rhs: Self)
        ensures
            final(self)@ == symmetric_difference_bits(old(self)@, rhs@),
    {
        self.symmetric_difference_with(&rhs);
    }
}

impl<S: BitStoreMut + BitStoreClone> core::ops::Sub for BitSet<S> {
    type Output = Self;

    /// `a - b` is the difference of `a` and `b`.
    #[inline]
    fn sub(self, rhs: Self) -> (r: Self)
        ensures
            r@ == difference_bits(self@, rhs@),
    {
        let r = self.difference(&rhs);
        proof {
            r.lemma_view_fixes_value(the_set_with(difference_bits(self@, rhs@)));
        }
        r
    }
}

impl<S: BitStoreMut + BitStoreClone> vstd::std_specs::ops::SubSpecImpl for BitSet<S> {
    open spec fn obeys_sub_spec() -> bool {
        true
    }

    open spec fn sub_req(self, rhs: Self) -> bool {
        true
    }

    open spec fn sub_spec(self, rhs: Self) -> Self {
        the_set_with(difference_bits(self@, rhs@))
    }
}

impl<S: BitStoreMut> core::ops::SubAssign for BitSet<S> {
    /// `a -= b` replaces `a` by the difference of `a` and `b`.
    #[inline]
    fn sub_assign(&mut self, rhs: Self)
        ensures
            final(self)@ == difference_bits(old(self)@, rhs@),
    {
        self.difference_with(&rhs);
    }
}
} // verus!
