//! Value semantics of the heap array: cloning, equality and hashing.

use vstd::prelude::*;
use vstd::std_specs::cmp::{PartialEqSpec, PartialEqSpecImpl};
use std::collections::hash_map::DefaultHasher;
use std::hash::Hasher;
use crate::array::HeapArray;
use crate::bytes::le_bytes;
use crate::element::{encode, push_le, Element};

verus! {

/// Two sequences are equal element by element: they have the same length, and
/// at each index the element of the first equals that of the second.
pub open spec fn elementwise_eq<T: PartialEq>(a: Seq<T>, b: Seq<T>) -> bool {
    &&& a.len() == b.len()
    &&& forall|i: int| 0 <= i < a.len() ==> (#[trigger] a[i]).eq_spec(&b[i])
}

impl<T: PartialEq> HeapArray<T> {
    /// Whether the array and the slice have the same length and equal
    /// elements at every index.
    pub fn eq_slice(&self, other: &[T]) -> (r: bool)
        ensures
            T::obeys_eq_spec() ==> r == elementwise_eq(self@, other@),
    {
        let mine: &[T] = self.as_slice();
        if mine.len() != other.len() {
            return false;
        }
        let count: usize = mine.len();
        let mut i: usize = 0;
        while i < count
            invariant
                i <= count,
                mine@ == self@,
                count == mine@.len() == other@.len(),
                T::obeys_eq_spec() ==> forall|j: int|
                    0 <= j < i ==> (#[trigger] mine@[j]).eq_spec(&other@[j]),
            decreases count - i,
        {
            if !(mine[i] == other[i]) {
                return false;
            }
            i = i + 1;
        }
        true
    }
}

impl<T: PartialEq> PartialEq for HeapArray<T> {
    /// Two arrays are equal when they have equal length and equal elements.
    fn eq(&self, other: &Self) -> (r: bool) {
        self.eq_slice(other.as_slice())
    }
}

impl<T: PartialEq> PartialEqSpecImpl for HeapArray<T> {
    open spec fn obeys_eq_spec() -> bool {
        T::obeys_eq_spec()
    }

    open spec fn eq_spec(&self, other: &Self) -> bool {
        elementwise_eq(self@, other@)
    }
}

impl<T: Eq> Eq for HeapArray<T> {

}

impl<T: Clone> Clone for HeapArray<T> {
    /// A new array with a clone of each element. It shares nothing with the
    /// array it was cloned from.
    fn clone(&self) -> (copy: Self)
        ensures
            copy@.len() == self@.len(),
            forall|i: int| 0 <= i < self@.len() ==> cloned(self@[i], #[trigger] copy@[i]),
            copy.is_null() == self.is_null(),
    {
        if self.is_null() {
            proof {
                self.lemma_null_is_empty();
            }
            HeapArray::null()
        } else {
            HeapArray::from_vec(self.to_vec())
        }
    }
}

/// What hashing an array writes to a hasher: the element count as eight bytes,
/// then the bytes of each element, in order.
pub open spec fn hash_feed<T: Element>(s: Seq<T>) -> Seq<Seq<u8>> {
    seq![le_bytes(s.len(), 8)] + Seq::new(s.len(), |i: int| s[i].bytes_of())
}

impl<T: Element> HeapArray<T> {
    /// Feeds the element count and then every element to the hasher.
    pub fn hash(&self, state: &mut DefaultHasher)
        ensures
            final(state)@ == old(state)@ + hash_feed(self@),
    {
        let elements: &[T] = self.as_slice();
        let count: usize = elements.len();
        let mut head: Vec<u8> = Vec::new();
        push_le(&mut head, count as u64, 8);
        assert(head@ =~= le_bytes(count as nat, 8));
        state.write(head.as_slice());
        let mut i: usize = 0;
        assert(state@ =~= old(state)@ + hash_feed(elements@).take(1));
        while i < count
            invariant
                i <= count == elements@.len(),
                elements@ == self@,
                state@ == old(state)@ + hash_feed(elements@).take(i + 1),
            decreases count - i,
        {
            let mut piece: Vec<u8> = Vec::new();
            encode(elements[i], &mut piece);
            assert(piece@ =~= elements@[i as int].bytes_of());
            state.write(piece.as_slice());
            assert(state@ =~= old(state)@ + hash_feed(elements@).take(i + 2));
            i = i + 1;
        }
        assert(hash_feed(elements@).take(count + 1) =~= hash_feed(elements@));
    }
}

} // verus!
