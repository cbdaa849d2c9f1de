//! Laws of the set operations, stated over the views and the storage that the
//! operations' contracts speak of.
//!
//! A set is determined by its view (`BitmapSet::lemma_view_determines_bytes`),
//! so what the laws say of views holds of the sets themselves.

use vstd::prelude::*;
use crate::bits::{
    bytes_and, bytes_not, bytes_or, spec_idx, spec_mask, with_bit_cleared, with_bit_set,
};
use crate::bulk::insert_all;
use crate::iter::members_between;
use crate::set::BitmapSet;

verus! {

/// There are as many values below `n` as `n` says.
proof fn lemma_count_below(n: int)
    requires
        0 <= n <= 256,
    ensures
        Set::new(|v: u8| v < n).finite(),
        Set::new(|v: u8| v < n).len() == n,
    decreases n,
{
    if n == 0 {
        assert(Set::new(|v: u8| v < n) =~= Set::<u8>::empty());
    } else {
        lemma_count_below(n - 1);
        assert(Set::new(|v: u8| v < n) =~= Set::new(|v: u8| v < n - 1).insert((n - 1) as u8));
    }
}

/// What `members_between` lists: each item is a member in `[lo, hi)`, each
/// such member is an item, and the items ascend strictly.
pub proof fn lemma_members_between(s: Set<u8>, lo: int, hi: int)
    requires
        0 <= lo <= hi <= 256,
    ensures
        forall|i: int|
            0 <= i < members_between(s, lo, hi).len() ==> s.contains(
                #[trigger] members_between(s, lo, hi)[i],
            ) && lo <= members_between(s, lo, hi)[i] < hi,
        forall|v: u8| s.contains(v) && lo <= v < hi ==> members_between(s, lo, hi).contains(v),
        forall|i: int, j: int|
            0 <= i < j < members_between(s, lo, hi).len() ==> members_between(s, lo, hi)[i]
                < members_between(s, lo, hi)[j],
    decreases hi - lo,
{
    if lo < hi {
        lemma_members_between(s, lo + 1, hi);
        let rest = members_between(s, lo + 1, hi);
        let all = members_between(s, lo, hi);
        if s.contains(lo as u8) {
            assert(all[0] == lo as u8);
            assert forall|i: int| 1 <= i < all.len() implies all[i] == rest[i - 1] by {}
            assert forall|v: u8| s.contains(v) && lo < v < hi implies all.contains(v) by {
                let i: int = choose|i: int| 0 <= i < rest.len() && rest[i] == v;
                assert(all[i + 1] == v);
            }
        }
    }
}

/// Inserting values one by one adds exactly the values of the sequence: the
/// order in which they come and how often each occurs make no difference.
pub proof fn lemma_insert_all(s: Set<u8>, items: Seq<u8>)
    ensures
        insert_all(s, items) == s.union(items.to_set()),
    decreases items.len(),
{
    if items.len() > 0 {
        lemma_insert_all(s, items.drop_last());
        assert(items.drop_last().push(items.last()) =~= items);
        items.drop_last().lemma_push_to_set_commute(items.last());
        assert(s.union(items.to_set()) =~= s.union(items.drop_last().to_set()).insert(
            items.last(),
        ));
    }
}

impl<const SIZE: usize> BitmapSet<SIZE> {
    /// Inserting a value makes it a member, and inserting it again changes
    /// neither the members nor the storage: inserting a member is no change.
    pub proof fn lemma_insert_idempotent(self, v: u8)
        requires
            v < Self::capacity(),
        ensures
            self@.insert(v).contains(v),
            self@.insert(v).insert(v) == self@.insert(v),
            with_bit_set(with_bit_set(self.bytes(), v), v) == with_bit_set(self.bytes(), v),
            self@.contains(v) ==> self@.insert(v) == self@ && with_bit_set(self.bytes(), v)
                == self.bytes(),
    {
        self.lemma_bytes_len();
        let byte: u8 = self.bytes()[spec_idx(v)];
        let k: u8 = v % 8;
        assert((byte | (1u8 << k)) | (1u8 << k) == byte | (1u8 << k)) by (bit_vector);
        assert(byte & (1u8 << k) != 0 ==> byte | (1u8 << k) == byte) by (bit_vector);
        if self@.contains(v) {
            assert(self.has(v));
            assert(with_bit_set(self.bytes(), v) =~= self.bytes());
        }
    }

    /// Removing a value makes it a non-member, and removing it again changes
    /// neither the members nor the storage: removing a non-member is no
    /// change.
    pub proof fn lemma_remove_idempotent(self, v: u8)
        requires
            v < Self::capacity(),
        ensures
            !self@.remove(v).contains(v),
            self@.remove(v).remove(v) == self@.remove(v),
            with_bit_cleared(with_bit_cleared(self.bytes(), v), v) == with_bit_cleared(
                self.bytes(),
                v,
            ),
            !self@.contains(v) ==> self@.remove(v) == self@ && with_bit_cleared(self.bytes(), v)
                == self.bytes(),
    {
        self.lemma_bytes_len();
        let byte: u8 = self.bytes()[spec_idx(v)];
        let k: u8 = v % 8;
        assert((byte & !(1u8 << k)) & !(1u8 << k) == byte & !(1u8 << k)) by (bit_vector);
        assert(byte & (1u8 << k) == 0 ==> byte & !(1u8 << k) == byte) by (bit_vector);
        if !self@.contains(v) {
            assert(!self.has(v));
            assert(with_bit_cleared(self.bytes(), v) =~= self.bytes());
        }
        assert(with_bit_cleared(with_bit_cleared(self.bytes(), v), v) =~= with_bit_cleared(
            self.bytes(),
            v,
        ));
    }

    /// Inserting a value into the empty set and removing it again gives the
    /// empty set, in members and in storage.
    pub proof fn lemma_insert_remove_on_empty(v: u8)
        requires
            v < Self::capacity(),
        ensures
            Set::<u8>::empty().insert(v).remove(v) == Set::<u8>::empty(),
            with_bit_cleared(with_bit_set(Self::zeroed(), v), v) == Self::zeroed(),
    {
        let mask: u8 = spec_mask(v);
        assert((0u8 | mask) & !mask == 0u8) by (bit_vector);
    }

    /// The complement of the empty set holds every candidate member, as many
    /// as the capacity says.
    pub proof fn lemma_complement_of_empty()
        requires
            Self::valid_size(),
        ensures
            Self::universe().difference(Set::<u8>::empty()) == Self::universe(),
            Self::universe().finite(),
            Self::universe().len() == Self::capacity(),
    {
        lemma_count_below(Self::capacity());
    }

    /// The complement of the complement of a set is the set, in members and
    /// in storage.
    pub proof fn lemma_complement_involution(self)
        ensures
            Self::universe().difference(Self::universe().difference(self@)) == self@,
            bytes_not(bytes_not(self.bytes())) == self.bytes(),
    {
        self.lemma_bytes_len();
        assert forall|i: int| 0 <= i < SIZE implies bytes_not(bytes_not(self.bytes()))[i]
            == self.bytes()[i] by {
            let x: u8 = self.bytes()[i];
            assert(!(!x) == x) by (bit_vector);
        }
    }

    /// De Morgan: the complement of a union is the intersection of the
    /// complements, in members and in storage.
    pub proof fn lemma_de_morgan(self, other: Self)
        ensures
            Self::universe().difference(self@.union(other@)) == Self::universe().difference(
                self@,
            ).intersect(Self::universe().difference(other@)),
            bytes_not(bytes_or(self.bytes(), other.bytes())) == bytes_and(
                bytes_not(self.bytes()),
                bytes_not(other.bytes()),
            ),
    {
        self.lemma_bytes_len();
        other.lemma_bytes_len();
        assert forall|i: int| 0 <= i < SIZE implies bytes_not(
            bytes_or(self.bytes(), other.bytes()),
        )[i] == bytes_and(bytes_not(self.bytes()), bytes_not(other.bytes()))[i] by {
            let x: u8 = self.bytes()[i];
            let y: u8 = other.bytes()[i];
            assert(!(x | y) == !x & !y) by (bit_vector);
        }
        assert(Self::universe().difference(self@.union(other@)) =~= Self::universe().difference(
            self@,
        ).intersect(Self::universe().difference(other@)));
    }

    /// Every set is a subset of itself, and two sets that are subsets of each
    /// other are the same set.
    pub proof fn lemma_subset_order(self, other: Self)
        requires
            Self::valid_size(),
        ensures
            self@.subset_of(self@),
            self@.subset_of(other@) && other@.subset_of(self@) ==> self == other,
    {
        if self@.subset_of(other@) && other@.subset_of(self@) {
            assert(self@ =~= other@);
            Self::lemma_view_determines_bytes(self, other);
        }
    }

    /// Two sets are disjoint exactly when their intersection is empty, and
    /// exactly when no value is a member of both.
    pub proof fn lemma_disjoint(self, other: Self)
        ensures
            self@.disjoint(other@) <==> self@.intersect(other@).is_empty(),
            self@.disjoint(other@) <==> !exists|v: u8| self@.contains(v) && other@.contains(v),
    {
        if self@.intersect(other@).is_empty() {
            assert forall|v: u8| self@.contains(v) implies !other@.contains(v) by {
                assert(!self@.intersect(other@).contains(v));
            }
        }
    }

    /// Iteration is total and ordered: the elements of a set, in the order in
    /// which its iterator yields them, ascend strictly and hold each member
    /// once and nothing else.
    pub proof fn lemma_elements(self)
        requires
            Self::valid_size(),
        ensures
            forall|i: int, j: int|
                0 <= i < j < self.elements().len() ==> self.elements()[i] < self.elements()[j],
            forall|v: u8| #[trigger]
                self.elements().to_multiset().count(v) == if self@.contains(v) {
                    1nat
                } else {
                    0nat
                },
            self.elements().no_duplicates(),
            self.elements().to_set() == self@,
            self.elements().len() == self@.len(),
    {
        lemma_members_between(self@, 0, Self::capacity());
        let e = self.elements();
        assert(e.to_set() =~= self@);
        e.unique_seq_to_set();
        e.lemma_multiset_has_no_duplicates();
        assert forall|v: u8| #[trigger]
            e.to_multiset().count(v) == if self@.contains(v) {
                1nat
            } else {
                0nat
            } by {
            vstd::seq_lib::to_multiset_contains(e, v);
        }
    }
}

} // verus!
