//! Bulk construction: a set from a sequence of values.

use vstd::prelude::*;
use vstd::std_specs::iter::IteratorSpec;
use crate::laws::lemma_insert_all;
use crate::set::BitmapSet;

verus! {

/// What becomes of the set `s` when the values of `items` are inserted into it
/// one by one, first to last.
pub open spec fn insert_all(s: Set<u8>, items: Seq<u8>) -> Set<u8>
    decreases items.len(),
{
    if items.len() == 0 {
        s
    } else {
        insert_all(s, items.drop_last()).insert(items.last())
    }
}

impl<const SIZE: usize> BitmapSet<SIZE> {
    /// The set with the values of `slice` as its members.
    pub fn from(slice: &[u8]) -> (s: Self)
        requires
            Self::valid_size(),
            forall|i: int| 0 <= i < slice@.len() ==> slice@[i] < Self::capacity(),
        ensures
            s@ == insert_all(Set::<u8>::empty(), slice@),
            s@ == slice@.to_set(),
    {
        let mut set = Self::new();
        for i in 0..slice.len()
            invariant
                forall|j: int| 0 <= j < slice@.len() ==> slice@[j] < Self::capacity(),
                set@ == insert_all(Set::<u8>::empty(), slice@.take(i as int)),
        {
            proof {
                assert(slice@.take(i + 1).drop_last() =~= slice@.take(i as int));
            }
            set.insert(slice[i]);
        }
        proof {
            assert(slice@.take(slice@.len() as int) =~= slice@);
            lemma_insert_all(Set::<u8>::empty(), slice@);
        }
        set
    }

    /// The set with the values that `iter` yields as its members.
    pub fn from_iter<T: Iterator<Item = u8>>(iter: T) -> (s: Self)
        requires
            Self::valid_size(),
            iter.obeys_prophetic_iter_laws(),
            iter.decrease() is Some,
            forall|i: int|
                0 <= i < iter.remaining().len() ==> iter.remaining()[i] < Self::capacity(),
        ensures
            s@ == insert_all(Set::<u8>::empty(), iter.remaining()),
            s@ == iter.remaining().to_set(),
    {
        let mut rest = iter;
        let mut set = Self::new();
        let ghost mut done: Seq<u8> = Seq::empty();
        loop
            invariant
                rest.obeys_prophetic_iter_laws(),
                rest.decrease() is Some,
                done + rest.remaining() == iter.remaining(),
                forall|i: int|
                    0 <= i < iter.remaining().len() ==> iter.remaining()[i] < Self::capacity(),
                set@ == insert_all(Set::<u8>::empty(), done),
            decreases rest.decrease()->0,
        {
            let ghost before = rest.remaining();
            match rest.next() {
                None => {
                    proof {
                        lemma_insert_all(Set::<u8>::empty(), done);
                    }
                    return set;
                },
                Some(item) => {
                    proof {
                        assert(before[0] == iter.remaining()[done.len() as int]);
                        assert(done.push(item).drop_last() =~= done);
                        done = done.push(item);
                    }
                    set.insert(item);
                },
            }
        }
    }
}

} // verus!
