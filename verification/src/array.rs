//! The fixed-capacity heap array.
//!
//! A [`HeapArray`] owns one block of elements. Its length is fixed when it is
//! made and changes only when the block is reallocated. An array is either
//! *null*, the empty state that owns no block, or holds a block of the
//! elements in its view.

use vstd::prelude::*;
use vstd::layout::size_of;
use vstd::pervasive::unreached;

verus! {

/// An array on the heap that cannot change size on its own.
#[derive(Debug)]
pub struct HeapArray<T> {
    block: Option<Vec<T>>,
}

impl<T> View for HeapArray<T> {
    type V = Seq<T>;

    /// The elements of the array, in order. A null array has none.
    closed spec fn view(&self) -> Seq<T> {
        match self.block {
            Some(store) => store@,
            None => Seq::empty(),
        }
    }
}

/// Calls `Vec::into_boxed_slice`. Trusted: the boxed slice holds the elements
/// of the vector, in the same order.
#[verifier::external_body]
fn boxed_from_vec<T>(vec: Vec<T>) -> (boxed: Box<[T]>)
    ensures
        boxed@ == vec@,
{
    vec.into_boxed_slice()
}

/// Calls `core::mem::size_of_val` on a slice. Trusted: a slice occupies as many
/// bytes as its length times the size of one element.
#[verifier::external_body]
fn size_of_slice<T>(slice: &[T]) -> (n: usize)
    ensures
        n == slice@.len() * size_of::<T>(),
{
    core::mem::size_of_val(slice)
}

impl<T> HeapArray<T> {
    /// Whether the array is the null state, which owns no block.
    pub closed spec fn null_state(&self) -> bool {
        self.block is None
    }

    /// A null array has no elements.
    pub broadcast proof fn lemma_null_is_empty(&self)
        ensures
            #[trigger] self.null_state() ==> self@.len() == 0,
    {
    }

    /// The null array: no block and no elements.
    pub fn null() -> (this: Self)
        ensures
            this.null_state(),
            this@.len() == 0,
    {
        HeapArray { block: None }
    }

    /// Is this the null array?
    #[verifier::when_used_as_spec(null_state)]
    pub fn is_null(&self) -> (r: bool)
        ensures
            r == self.null_state(),
    {
        self.block.is_none()
    }

    /// Takes over the elements of a vector.
    pub fn from_vec(vec: Vec<T>) -> (this: Self)
        ensures
            this@ == vec@,
            !this.is_null(),
    {
        HeapArray { block: Some(vec) }
    }

    /// Takes over the block of a boxed slice.
    pub fn from_boxed(slice: Box<[T]>) -> (this: Self)
        ensures
            this@ == slice@,
            !this.is_null(),
    {
        HeapArray { block: Some(slice.into_vec()) }
    }

    /// Gives the elements up as a vector, in order.
    pub fn into_vec(self) -> (vec: Vec<T>)
        ensures
            vec@ == self@,
    {
        match self.block {
            Some(store) => store,
            None => Vec::new(),
        }
    }

    /// Gives the block up as a boxed slice.
    pub fn into_box(self) -> (boxed: Box<[T]>)
        ensures
            boxed@ == self@,
    {
        boxed_from_vec(self.into_vec())
    }

    /// The size of one element, in bytes.
    pub fn element_size() -> (n: usize)
        ensures
            n == size_of::<T>(),
    {
        core::mem::size_of::<T>()
    }

    /// The size of the whole block, in bytes.
    pub fn len_bytes(&self) -> (n: usize)
        ensures
            n == self@.len() * size_of::<T>(),
    {
        size_of_slice(self.as_slice())
    }

    /// The number of elements.
    pub fn len(&self) -> (n: usize)
        ensures
            n == self@.len(),
    {
        match &self.block {
            Some(store) => store.len(),
            None => 0,
        }
    }

    /// The elements as a slice.
    pub fn as_slice(&self) -> (slice: &[T])
        ensures
            slice@ == self@,
    {
        match &self.block {
            Some(store) => store.as_slice(),
            None => &[],
        }
    }

    /// The element at `index`.
    pub fn index(&self, index: usize) -> (element: &T)
        requires
            index < self@.len(),
        ensures
            *element == self@[index as int],
    {
        match &self.block {
            Some(store) => &store[index],
            None => unreached(),
        }
    }

    /// Puts `value` at `index` and leaves every other element as it was.
    pub fn set(&mut self, index: usize, value: T)
        requires
            index < old(self)@.len(),
        ensures
            final(self)@ == old(self)@.update(index as int, value),
            final(self).is_null() == old(self).is_null(),
    {
        match &mut self.block {
            Some(store) => {
                store.set(index, value);
            },
            None => {},
        }
    }

    /// The elements as a mutable slice: what is written there is written to
    /// the array.
    pub fn as_mut(&mut self) -> (slice: &mut [T])
        ensures
            slice@ == old(self)@,
            final(self)@ == final(slice)@,
            final(self).is_null() == old(self).is_null(),
    {
        match &mut self.block {
            Some(store) => store.as_mut_slice(),
            None => &mut [],
        }
    }

    /// The element at `index`, to be written to.
    pub fn index_mut(&mut self, index: usize) -> (element: &mut T)
        requires
            index < old(self)@.len(),
        ensures
            *element == old(self)@[index as int],
            final(self)@ == old(self)@.update(index as int, *final(element)),
            final(self).is_null() == old(self).is_null(),
    {
        match &mut self.block {
            Some(store) => &mut store[index],
            None => unreached(),
        }
    }

    /// A vector of clones of the elements, in order.
    pub fn to_vec(&self) -> (vec: Vec<T>) where T: Clone
        ensures
            vec@.len() == self@.len(),
            forall|i: int| 0 <= i < self@.len() ==> cloned(self@[i], #[trigger] vec@[i]),
    {
        let mut vec: Vec<T> = Vec::with_capacity(self.len());
        vec.extend_from_slice(self.as_slice());
        vec
    }

    /// Overwrites every element with a clone of `value`.
    pub fn fill(&mut self, value: &T) where T: Clone
        ensures
            final(self)@.len() == old(self)@.len(),
            forall|i: int| 0 <= i < old(self)@.len() ==> cloned(*value, #[trigger] final(self)@[i]),
            final(self).is_null() == old(self).is_null(),
    {
        let count: usize = self.len();
        let mut i: usize = 0;
        while i < count
            invariant
                i <= count,
                self@.len() == count,
                self.is_null() == old(self).is_null(),
                forall|j: int| 0 <= j < i ==> cloned(*value, #[trigger] self@[j]),
            decreases count - i,
        {
            self.set(i, value.clone());
            i = i + 1;
        }
    }
}

} // verus!
