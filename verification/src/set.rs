//! The bitmap set: its storage, its view, and the operations on single
//! members.

use vstd::prelude::*;
use crate::bits::{
    bit_set, lemma_clear_bit, lemma_equal_iff_same_bits, lemma_set_bit, lemma_zero_byte,
    lemma_zero_iff_no_bit, spec_idx, spec_mask, with_bit_cleared, with_bit_set,
};

mod algebra;

verus! {

/// A set of integers in `[0, 8 * SIZE)`, one bit per candidate member, packed
/// into `SIZE` bytes.
pub struct BitmapSet<const SIZE: usize> {
    data: [u8; SIZE],
}

impl<const SIZE: usize> View for BitmapSet<SIZE> {
    type V = Set<u8>;

    /// The members: every `v` below the capacity whose bit is set.
    open spec fn view(&self) -> Set<u8> {
        Set::new(|v: u8| self.has(v))
    }
}

impl<const SIZE: usize> BitmapSet<SIZE> {
    /// The storage sizes that a set can have.
    pub open spec fn valid_size() -> bool {
        1 <= SIZE <= 32
    }

    /// The number of slots.
    pub open spec fn capacity() -> int {
        8 * SIZE
    }

    /// Every candidate member.
    pub open spec fn universe() -> Set<u8> {
        Set::new(|v: u8| v < Self::capacity())
    }

    /// The storage of the empty set: every byte zero.
    pub open spec fn zeroed() -> Seq<u8> {
        Seq::new(SIZE as nat, |i: int| 0u8)
    }

    /// Every set has a storage size in the supported range.
    #[verifier::type_invariant]
    pub open spec fn well_formed(&self) -> bool {
        Self::valid_size()
    }

    /// The storage, byte by byte.
    pub closed spec fn bytes(&self) -> Seq<u8> {
        self.data@
    }

    /// Whether the bit of `v` is set in the storage.
    pub open spec fn has(&self, v: u8) -> bool {
        v < Self::capacity() && bit_set(self.bytes()[spec_idx(v)], v)
    }

    /// The members below `bound`.
    spec fn below(&self, bound: int) -> Set<u8> {
        Set::new(|v: u8| v < bound && self.has(v))
    }

    /// The storage has one byte per eight slots.
    pub proof fn lemma_bytes_len(&self)
        ensures
            self.bytes().len() == SIZE,
    {
    }

    /// The slot of bit `k` in byte `i` belongs to the value `8 * i + k`.
    proof fn lemma_slot(i: int, k: u8) -> (v: u8)
        requires
            Self::valid_size(),
            0 <= i < SIZE,
            k < 8,
        ensures
            v == 8 * i + k,
            v < Self::capacity(),
            spec_idx(v) == i,
            spec_mask(v) == spec_mask(k),
    {
        (8 * i + k) as u8
    }

    /// The empty set.
    pub fn new() -> (s: Self)
        requires
            Self::valid_size(),
        ensures
            s@ == Set::<u8>::empty(),
            s.bytes() == Self::zeroed(),
    {
        let s = Self { data: [0; SIZE] };
        proof {
            assert forall|v: u8| !#[trigger] s.has(v) by {
                lemma_zero_byte(v);
            }
        }
        s
    }

    /// Whether `value` is a member.
    pub fn contains(&self, value: u8) -> (r: bool)
        requires
            value < Self::capacity(),
        ensures
            r == self@.contains(value),
    {
        *self.byte(value) & Self::mask(value) != 0
    }

    /// Makes `value` a member.
    pub fn insert(&mut self, value: u8)
        requires
            value < Self::capacity(),
        ensures
            final(self)@ == old(self)@.insert(value),
            final(self).bytes() == with_bit_set(old(self).bytes(), value),
    {
        proof {
            use_type_invariant(&*self);
        }
        *Self::byte_mut(&mut self.data, value) |= Self::mask(value);
        proof {
            assert forall|v: u8| #[trigger] self.has(v) == (v == value || old(self).has(v)) by {
                lemma_set_bit(old(self).bytes()[spec_idx(value)], value, v);
            }
        }
    }

    /// Makes `value` a non-member.
    pub fn remove(&mut self, value: u8)
        requires
            value < Self::capacity(),
        ensures
            final(self)@ == old(self)@.remove(value),
            final(self).bytes() == with_bit_cleared(old(self).bytes(), value),
    {
        proof {
            use_type_invariant(&*self);
        }
        *Self::byte_mut(&mut self.data, value) &= !Self::mask(value);
        proof {
            assert forall|v: u8| #[trigger] self.has(v) == (v != value && old(self).has(v)) by {
                lemma_clear_bit(old(self).bytes()[spec_idx(value)], value, v);
            }
        }
    }

    /// Removes every member.
    pub fn clear(&mut self)
        ensures
            final(self)@ == Set::<u8>::empty(),
            final(self)@.is_empty(),
            final(self)@.len() == 0,
            final(self).bytes() == Self::zeroed(),
    {
        proof {
            use_type_invariant(&*self);
        }
        self.data = [0; SIZE];
        proof {
            assert forall|v: u8| !#[trigger] self.has(v) by {
                lemma_zero_byte(v);
            }
        }
    }

    /// The number of members.
    pub fn len(&self) -> (n: usize)
        ensures
            self@.finite(),
            n == self@.len(),
            n <= Self::capacity(),
    {
        proof {
            use_type_invariant(self);
        }
        let mut n: usize = 0;
        let mut v: usize = 0;
        assert(self.below(0) =~= Set::<u8>::empty());
        while v < 8 * SIZE
            invariant
                Self::valid_size(),
                v <= 8 * SIZE,
                n <= v,
                self.below(v as int).finite(),
                n == self.below(v as int).len(),
            decreases 8 * SIZE - v,
        {
            let member = self.contains(v as u8);
            proof {
                if member {
                    assert(self.below(v + 1) =~= self.below(v as int).insert(v as u8));
                } else {
                    assert(self.below(v + 1) =~= self.below(v as int));
                }
            }
            if member {
                n += 1;
            }
            v += 1;
        }
        assert(self.below(v as int) =~= self@);
        n
    }

    /// Whether the set has no member.
    pub fn is_empty(&self) -> (r: bool)
        ensures
            r == self@.is_empty(),
            r == (self.bytes() == Self::zeroed()),
    {
        proof {
            use_type_invariant(self);
        }
        let mut i: usize = 0;
        while i < SIZE
            invariant
                Self::valid_size(),
                i <= SIZE,
                forall|j: int| 0 <= j < i ==> self.data@[j] == 0,
            decreases SIZE - i,
        {
            if self.data[i] != 0 {
                proof {
                    lemma_zero_iff_no_bit(self.data@[i as int]);
                    let k: u8 = choose|k: u8| k < 8 && bit_set(self.data@[i as int], k);
                    let v: u8 = Self::lemma_slot(i as int, k);
                    assert(self@.contains(v));
                }
                return false;
            }
            i += 1;
        }
        proof {
            assert(self.bytes() =~= Self::zeroed());
            assert forall|v: u8| !#[trigger] self.has(v) by {
                lemma_zero_byte(v);
            }
        }
        true
    }

    /// Two sets have the same members exactly when their storage is the same,
    /// byte for byte, and exactly then they are the same value.
    pub proof fn lemma_view_determines_bytes(a: Self, b: Self)
        requires
            Self::valid_size(),
        ensures
            a@ == b@ <==> a.bytes() == b.bytes(),
            a.bytes() == b.bytes() <==> a == b,
    {
        if a.bytes() == b.bytes() {
            assert(a.data =~= b.data);
        }
        if a@ == b@ {
            assert forall|i: int| 0 <= i < SIZE implies a.bytes()[i] == b.bytes()[i] by {
                assert forall|k: u8| k < 8 implies bit_set(a.bytes()[i], k) == bit_set(
                    b.bytes()[i],
                    k,
                ) by {
                    let v: u8 = Self::lemma_slot(i, k);
                    assert(a@.contains(v) == a.has(v));
                    assert(b@.contains(v) == b.has(v));
                }
                lemma_equal_iff_same_bits(a.bytes()[i], b.bytes()[i]);
            }
            assert(a.bytes() =~= b.bytes());
        }
    }

    /// The byte that holds the bit of `value`.
    fn byte(&self, value: u8) -> (b: &u8)
        requires
            value < Self::capacity(),
        ensures
            *b == self.bytes()[spec_idx(value)],
    {
        &self.data[Self::idx(value)]
    }

    /// The byte of `data` that holds the bit of `value`, to be written.
    fn byte_mut(data: &mut [u8; SIZE], value: u8) -> (b: &mut u8)
        requires
            value < Self::capacity(),
        ensures
            *b == old(data)@[spec_idx(value)],
            final(data)@ == old(data)@.update(spec_idx(value), *final(b)),
        no_unwind
    {
        &mut data[Self::idx(value)]
    }

    /// The index of the byte that holds the bit of `value`.
    fn idx(value: u8) -> (i: usize)
        ensures
            i == spec_idx(value),
        no_unwind
    {
        (value / 8) as usize
    }

    /// The mask that selects the bit of `value` inside its byte.
    fn mask(value: u8) -> (m: u8)
        ensures
            m == spec_mask(value),
    {
        1 << (value % 8)
    }
}

impl<const SIZE: usize> Clone for BitmapSet<SIZE> {
    /// A copy of the set.
    fn clone(&self) -> (r: Self)
        ensures
            r == *self,
    {
        proof {
            use_type_invariant(self);
        }
        Self { data: self.data }
    }
}

impl<const SIZE: usize> PartialEq for BitmapSet<SIZE> {
    /// Whether the two sets have the same storage, byte for byte.
    fn eq(&self, other: &Self) -> (r: bool) {
        let mut i: usize = 0;
        while i < SIZE
            invariant
                i <= SIZE,
                forall|j: int| 0 <= j < i ==> self.data@[j] == other.data@[j],
            decreases SIZE - i,
        {
            if self.data[i] != other.data[i] {
                return false;
            }
            i += 1;
        }
        proof {
            assert(self.bytes() =~= other.bytes());
        }
        true
    }
}

impl<const SIZE: usize> vstd::std_specs::cmp::PartialEqSpecImpl for BitmapSet<SIZE> {
    open spec fn obeys_eq_spec() -> bool {
        true
    }

    /// Equal sets are sets with the same storage.
    open spec fn eq_spec(&self, other: &Self) -> bool {
        self.bytes() == other.bytes()
    }
}

impl<const SIZE: usize> Eq for BitmapSet<SIZE> {}

} // verus!
