//! Iteration over the elements of a heap array, from either end.

use vstd::prelude::*;
use crate::array::HeapArray;

verus! {

/// The elements of a heap array that have not been handed out yet.
pub struct Iter<'a, T> {
    array: &'a HeapArray<T>,
    front: usize,
    back: usize,
}

impl<'a, T> Iter<'a, T> {
    #[verifier::type_invariant]
    spec fn in_bounds(&self) -> bool {
        self.front <= self.back <= self.array@.len()
    }

    /// The elements still to come, in the order of the array.
    pub closed spec fn remaining(&self) -> Seq<T> {
        self.array@.subrange(self.front as int, self.back as int)
    }

    /// An iterator over all the elements of `ha`.
    pub fn new(ha: &'a HeapArray<T>) -> (it: Self)
        ensures
            it.remaining() == ha@,
    {
        let it = Iter { array: ha, front: 0, back: ha.len() };
        assert(it.remaining() =~= ha@);
        it
    }

    /// Hands out the first of the remaining elements.
    pub fn next(&mut self) -> (r: Option<&'a T>)
        ensures
            match r {
                Some(element) => {
                    &&& old(self).remaining().len() > 0
                    &&& *element == old(self).remaining().first()
                    &&& final(self).remaining() == old(self).remaining().drop_first()
                },
                None => {
                    &&& old(self).remaining().len() == 0
                    &&& final(self).remaining() == old(self).remaining()
                },
            },
    {
        proof {
            use_type_invariant(&*self);
        }
        if self.front < self.back {
            let element: &'a T = self.array.index(self.front);
            self.front = self.front + 1;
            assert(self.remaining() =~= old(self).remaining().drop_first());
            Some(element)
        } else {
            None
        }
    }

    /// Hands out the last of the remaining elements.
    pub fn next_back(&mut self) -> (r: Option<&'a T>)
        ensures
            match r {
                Some(element) => {
                    &&& old(self).remaining().len() > 0
                    &&& *element == old(self).remaining().last()
                    &&& final(self).remaining() == old(self).remaining().drop_last()
                },
                None => {
                    &&& old(self).remaining().len() == 0
                    &&& final(self).remaining() == old(self).remaining()
                },
            },
    {
        proof {
            use_type_invariant(&*self);
        }
        if self.front < self.back {
            self.back = self.back - 1;
            let element: &'a T = self.array.index(self.back);
            assert(self.remaining() =~= old(self).remaining().drop_last());
            Some(element)
        } else {
            None
        }
    }

    /// The number of elements still to come.
    pub fn len(&self) -> (n: usize)
        ensures
            n == self.remaining().len(),
    {
        proof {
            use_type_invariant(self);
        }
        self.back - self.front
    }
}

impl<T> HeapArray<T> {
    /// A fresh iterator over the elements, first to last.
    pub fn iter<'a>(&'a self) -> (it: Iter<'a, T>)
        ensures
            it.remaining() == self@,
    {
        Iter::new(self)
    }
}

} // verus!
