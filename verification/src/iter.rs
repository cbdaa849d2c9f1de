//! Iteration over the members of a set, in ascending order.

use vstd::prelude::*;
use crate::set::BitmapSet;

verus! {

/// The members of `s` in `[lo, hi)`, in ascending order.
pub open spec fn members_between(s: Set<u8>, lo: int, hi: int) -> Seq<u8>
    decreases hi - lo,
{
    if lo >= hi {
        Seq::empty()
    } else if s.contains(lo as u8) {
        seq![lo as u8] + members_between(s, lo + 1, hi)
    } else {
        members_between(s, lo + 1, hi)
    }
}

/// Where `[lo, mid)` holds no member, the members in `[lo, hi)` are those in
/// `[mid, hi)`.
pub proof fn lemma_members_skip(s: Set<u8>, lo: int, mid: int, hi: int)
    requires
        0 <= lo <= mid <= hi <= 256,
        forall|u: u8| lo <= u < mid ==> !s.contains(u),
    ensures
        members_between(s, lo, hi) == members_between(s, mid, hi),
    decreases mid - lo,
{
    if lo < mid {
        lemma_members_skip(s, lo + 1, mid, hi);
    }
}

/// A cursor over the members of a set. It is either active, about to examine
/// a candidate value, or exhausted.
pub struct Iter<'a, const SIZE: usize> {
    set: &'a BitmapSet<SIZE>,
    value: Option<u8>,
}

impl<'a, const SIZE: usize> Iter<'a, SIZE> {
    #[verifier::type_invariant]
    spec fn well_formed(&self) -> bool {
        &&& BitmapSet::<SIZE>::valid_size()
        &&& self.value matches Some(v) ==> v < BitmapSet::<SIZE>::capacity()
    }

    /// The set that is iterated over.
    pub closed spec fn source(&self) -> BitmapSet<SIZE> {
        *self.set
    }

    /// The next candidate value to examine; the capacity once the iterator is
    /// exhausted.
    pub closed spec fn cursor(&self) -> int {
        match self.value {
            Some(v) => v as int,
            None => BitmapSet::<SIZE>::capacity(),
        }
    }

    /// Whether no candidate value is left to examine.
    pub open spec fn exhausted(&self) -> bool {
        self.cursor() == BitmapSet::<SIZE>::capacity()
    }

    /// The members still to come, in the order in which they will come.
    pub open spec fn remaining(&self) -> Seq<u8> {
        members_between(self.source()@, self.cursor(), BitmapSet::<SIZE>::capacity())
    }

    /// Moves the cursor to the next candidate value, or to exhaustion behind
    /// the last one.
    fn advance(&mut self)
        ensures
            final(self).source() == old(self).source(),
            final(self).cursor() == if old(self).exhausted() {
                old(self).cursor()
            } else {
                old(self).cursor() + 1
            },
    {
        proof {
            use_type_invariant(&*self);
        }
        self.value = match self.value {
            Some(v) => if v < Self::maxval() {
                Some(v + 1)
            } else {
                None
            },
            None => None,
        };
    }

    /// The largest candidate value.
    fn maxval() -> (m: u8)
        requires
            BitmapSet::<SIZE>::valid_size(),
        ensures
            m == BitmapSet::<SIZE>::capacity() - 1,
    {
        (SIZE * 8 - 1) as u8
    }
}

impl<'a, const SIZE: usize> Iterator for Iter<'a, SIZE> {
    type Item = u8;

    /// The least member at or after the cursor, if there is one; the cursor
    /// moves past it. Without one the iterator is exhausted, and stays so.
    fn next(&mut self) -> (r: Option<u8>)
        ensures
            final(self).source() == old(self).source(),
            0 <= old(self).cursor() <= final(self).cursor() <= BitmapSet::<SIZE>::capacity(),
            match r {
                Some(v) => {
                    &&& old(self).cursor() <= v < BitmapSet::<SIZE>::capacity()
                    &&& old(self).source()@.contains(v)
                    &&& forall|u: u8|
                        old(self).cursor() <= u < v ==> !old(self).source()@.contains(u)
                    &&& final(self).cursor() == v + 1
                },
                None => {
                    &&& forall|u: u8| old(self).cursor() <= u ==> !old(self).source()@.contains(u)
                    &&& final(self).exhausted()
                },
            },
            old(self).remaining() == match r {
                Some(v) => seq![v] + final(self).remaining(),
                None => Seq::empty(),
            },
            r is None ==> final(self).remaining() == Seq::<u8>::empty(),
    {
        proof {
            use_type_invariant(&*self);
        }
        loop
            invariant
                self.source() == old(self).source(),
                0 <= old(self).cursor() <= self.cursor() <= BitmapSet::<SIZE>::capacity(),
                forall|u: u8|
                    old(self).cursor() <= u < self.cursor() ==> !self.source()@.contains(u),
            decreases BitmapSet::<SIZE>::capacity() - self.cursor(),
        {
            proof {
                use_type_invariant(&*self);
            }
            match self.value {
                None => {
                    proof {
                        lemma_members_skip(
                            self.source()@,
                            old(self).cursor(),
                            self.cursor(),
                            BitmapSet::<SIZE>::capacity(),
                        );
                    }
                    return None;
                },
                Some(value) => {
                    self.advance();
                    if self.set.contains(value) {
                        proof {
                            lemma_members_skip(
                                self.source()@,
                                old(self).cursor(),
                                value as int,
                                BitmapSet::<SIZE>::capacity(),
                            );
                        }
                        return Some(value);
                    }
                },
            }
        }
    }
}

impl<'a, const SIZE: usize> vstd::std_specs::iter::IteratorSpecImpl for Iter<'a, SIZE> {
    open spec fn obeys_prophetic_iter_laws(&self) -> bool {
        true
    }

    open spec fn remaining(&self) -> Seq<u8> {
        Iter::remaining(self)
    }

    open spec fn will_return_none(&self) -> bool {
        true
    }

    open spec fn decrease(&self) -> Option<nat> {
        Some((BitmapSet::<SIZE>::capacity() - self.cursor()) as nat)
    }

    open spec fn initial_value_relation(&self, init: &Self) -> bool {
        self == init
    }

    open spec fn peek(&self, index: int) -> Option<u8> {
        if 0 <= index < Iter::remaining(self).len() {
            Some(Iter::remaining(self)[index])
        } else {
            None
        }
    }
}

impl<const SIZE: usize> BitmapSet<SIZE> {
    /// The members in ascending order.
    pub open spec fn elements(&self) -> Seq<u8> {
        members_between(self@, 0, Self::capacity())
    }

    /// An iterator over the members, in ascending order.
    pub fn iter(&self) -> (it: Iter<'_, SIZE>)
        ensures
            it.source() == *self,
            it.cursor() == 0,
            it.remaining() == self.elements(),
    {
        proof {
            use_type_invariant(self);
        }
        Iter { set: self, value: Some(0) }
    }
}

} // verus!
