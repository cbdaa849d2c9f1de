//! Set algebra, in place and as functions, and the predicates built on it.

use vstd::prelude::*;
use crate::bits::{
    bytes_and, bytes_and_not, bytes_not, bytes_or, lemma_and_bit, lemma_and_not_bit,
    lemma_not_bit, lemma_or_bit, spec_idx,
};
use crate::set::BitmapSet;

verus! {

impl<const SIZE: usize> BitmapSet<SIZE> {
    /// The members of both `self` and `other`.
    pub fn intersection(&self, other: &Self) -> (r: Self)
        ensures
            r@ == self@.intersect(other@),
            r.bytes() == bytes_and(self.bytes(), other.bytes()),
    {
        let mut result = self.clone();
        result.intersect(other);
        result
    }

    /// The members of `self` or `other`.
    pub fn union(&self, other: &Self) -> (r: Self)
        ensures
            r@ == self@.union(other@),
            r.bytes() == bytes_or(self.bytes(), other.bytes()),
    {
        let mut result = self.clone();
        result.unite(other);
        result
    }

    /// The members of `self` that are not in `other`.
    pub fn difference(&self, other: &Self) -> (r: Self)
        ensures
            r@ == self@.difference(other@),
            r.bytes() == bytes_and_not(self.bytes(), other.bytes()),
    {
        let mut result = self.clone();
        result.subtract(other);
        result
    }

    /// The candidate members that are not in `self`.
    pub fn complement(&self) -> (r: Self)
        ensures
            r@ == Self::universe().difference(self@),
            r.bytes() == bytes_not(self.bytes()),
    {
        let mut result = self.clone();
        result.invert();
        result
    }

    /// Keeps the members that are in `other` too.
    pub fn intersect(&mut self, other: &Self)
        ensures
            final(self)@ == old(self)@.intersect(other@),
            final(self).bytes() == bytes_and(old(self).bytes(), other.bytes()),
    {
        proof {
            use_type_invariant(&*self);
        }
        let mut i: usize = 0;
        while i < SIZE
            invariant
                Self::valid_size(),
                i <= SIZE,
                forall|j: int| 0 <= j < i ==> self.data@[j] == old(self).data@[j] & other.data@[j],
                forall|j: int| i <= j < SIZE ==> self.data@[j] == old(self).data@[j],
            decreases SIZE - i,
        {
            self.data[i] = self.data[i] & other.data[i];
            i += 1;
        }
        proof {
            assert forall|v: u8| #[trigger] self.has(v) == (old(self).has(v) && other.has(v)) by {
                lemma_and_bit(old(self).bytes()[spec_idx(v)], other.bytes()[spec_idx(v)], v);
            }
        }
    }

    /// Adds the members of `other`.
    pub fn unite(&mut self, other: &Self)
        ensures
            final(self)@ == old(self)@.union(other@),
            final(self).bytes() == bytes_or(old(self).bytes(), other.bytes()),
    {
        proof {
            use_type_invariant(&*self);
        }
        let mut i: usize = 0;
        while i < SIZE
            invariant
                Self::valid_size(),
                i <= SIZE,
                forall|j: int| 0 <= j < i ==> self.data@[j] == old(self).data@[j] | other.data@[j],
                forall|j: int| i <= j < SIZE ==> self.data@[j] == old(self).data@[j],
            decreases SIZE - i,
        {
            self.data[i] = self.data[i] | other.data[i];
            i += 1;
        }
        proof {
            assert forall|v: u8| #[trigger] self.has(v) == (old(self).has(v) || other.has(v)) by {
                lemma_or_bit(old(self).bytes()[spec_idx(v)], other.bytes()[spec_idx(v)], v);
            }
        }
    }

    /// Removes the members of `other`.
    pub fn subtract(&mut self, other: &Self)
        ensures
            final(self)@ == old(self)@.difference(other@),
            final(self).bytes() == bytes_and_not(old(self).bytes(), other.bytes()),
    {
        proof {
            use_type_invariant(&*self);
        }
        let mut i: usize = 0;
        while i < SIZE
            invariant
                Self::valid_size(),
                i <= SIZE,
                forall|j: int|
                    0 <= j < i ==> self.data@[j] == old(self).data@[j] & !other.data@[j],
                forall|j: int| i <= j < SIZE ==> self.data@[j] == old(self).data@[j],
            decreases SIZE - i,
        {
            self.data[i] = self.data[i] & !other.data[i];
            i += 1;
        }
        proof {
            assert forall|v: u8| #[trigger] self.has(v) == (old(self).has(v) && !other.has(v)) by {
                lemma_and_not_bit(old(self).bytes()[spec_idx(v)], other.bytes()[spec_idx(v)], v);
            }
        }
    }

    /// Flips the membership of every candidate member.
    pub fn invert(&mut self)
        ensures
            final(self)@ == Self::universe().difference(old(self)@),
            final(self).bytes() == bytes_not(old(self).bytes()),
    {
        proof {
            use_type_invariant(&*self);
        }
        let mut i: usize = 0;
        while i < SIZE
            invariant
                Self::valid_size(),
                i <= SIZE,
                forall|j: int| 0 <= j < i ==> self.data@[j] == !old(self).data@[j],
                forall|j: int| i <= j < SIZE ==> self.data@[j] == old(self).data@[j],
            decreases SIZE - i,
        {
            self.data[i] = !self.data[i];
            i += 1;
        }
        proof {
            assert forall|v: u8| #[trigger]
                self.has(v) == (v < Self::capacity() && !old(self).has(v)) by {
                lemma_not_bit(old(self).bytes()[spec_idx(v)], v);
            }
        }
    }

    /// Whether `self` and `other` have no member in common.
    pub fn is_disjoint(&self, other: &Self) -> (r: bool)
        ensures
            r == self@.disjoint(other@),
    {
        let common = self.intersection(other);
        proof {
            self.lemma_disjoint(*other);
        }
        common.is_empty()
    }

    /// Whether every member of `self` is in `other`.
    pub fn is_subset(&self, other: &Self) -> (r: bool)
        ensures
            r == self@.subset_of(other@),
    {
        proof {
            use_type_invariant(self);
        }
        let common = self.intersection(other);
        proof {
            Self::lemma_view_determines_bytes(common, *self);
            assert(self@.subset_of(other@) <==> self@.intersect(other@) =~= self@);
        }
        common == *self
    }

    /// Whether every member of `other` is in `self`.
    pub fn is_superset(&self, other: &Self) -> (r: bool)
        ensures
            r == other@.subset_of(self@),
    {
        other.is_subset(self)
    }
}

} // verus!
