//! The heap array as raw memory: zeroed allocation, byte views, byte fills,
//! reallocation and reinterpretation.
//!
//! These operations exist for element types that are plain bytes, see
//! [`Element`]. The bytes of an array are the bytes of its elements, one after
//! the other.

use vstd::prelude::*;
use crate::array::HeapArray;
use crate::block::{flatten, from_block, splats, to_block, unflatten};
use crate::block::{
    lemma_flatten_index, lemma_flatten_injective, lemma_flatten_len, lemma_flatten_splats,
    lemma_flatten_unflatten, lemma_slot_of_index, lemma_unflatten_flatten,
};
use crate::bytes::{lemma_le_bytes_injective, repeat};
use crate::element::{decode, encode, splat, splatted, zero, zeroed, Element};

verus! {

/// Appends `count` elements made of the byte `value` to an empty vector.
fn push_splats<T: Element>(store: &mut Vec<T>, value: u8, count: usize)
    requires
        old(store)@.len() == 0,
    ensures
        final(store)@ == splats::<T>(value, count as nat),
{
    let x: T = splatted(value);
    let mut i: usize = 0;
    while i < count
        invariant
            i <= count,
            x == splat::<T>(value),
            store@ == splats::<T>(value, i as nat),
        decreases count - i,
    {
        store.push(x);
        assert(store@ =~= splats::<T>(value, (i + 1) as nat));
        i = i + 1;
    }
}

/// The first `n` elements of `s`, followed by zeroed elements where `s` has
/// fewer than `n`.
pub open spec fn resized<T: Element>(s: Seq<T>, n: nat) -> Seq<T> {
    Seq::new(
        n,
        |i: int|
            if i < s.len() {
                s[i]
            } else {
                zero::<T>()
            },
    )
}

/// Whether two elements have the same bytes, which is whether they are equal.
fn same_bytes<T: Element>(x: T, y: T) -> (r: bool)
    ensures
        r == (x == y),
        r == (x.bytes_of() == y.bytes_of()),
{
    let v: u64 = x.to_bits();
    let w: u64 = y.to_bits();
    proof {
        x.lemma_bytes_of();
        y.lemma_bytes_of();
        if x.bytes_of() == y.bytes_of() {
            lemma_le_bytes_injective(v as nat, w as nat, T::width());
        }
    }
    v == w
}

impl<T: Element> HeapArray<T> {
    /// The bytes of the block: those of the elements, in order.
    pub open spec fn bytes(&self) -> Seq<u8> {
        flatten(self@)
    }

    /// The array that a request for `size` zeroed elements ends in. Where the
    /// allocator granted the request, `store` becomes the block and is filled
    /// with zero bytes; where it refused, the array is null.
    pub fn from_reserved(store: Vec<T>, size: usize, granted: bool) -> (this: Self)
        requires
            store@.len() == 0,
        ensures
            granted ==> !this.is_null() && this@ == splats::<T>(0, size as nat),
            !granted ==> this.is_null() && this@.len() == 0,
    {
        if granted {
            let mut store = store;
            push_splats(&mut store, 0, size);
            HeapArray::from_vec(store)
        } else {
            HeapArray::null()
        }
    }

    /// Asks the allocator for `size` zeroed elements and does not look at its
    /// answer: the array is null where the allocator refused. No elements
    /// need no block, so for a `size` of zero the allocator is not asked and
    /// the array is never null.
    pub fn allocate_ignore(size: usize) -> (this: Self)
        ensures
            this.is_null() || this@ == splats::<T>(0, size as nat),
            this.is_null() ==> this@.len() == 0,
            size == 0 ==> !this.is_null(),
    {
        let mut store: Vec<T> = Vec::new();
        let granted: bool = if size == 0 {
            true
        } else {
            store.try_reserve(size).is_ok()
        };
        Self::from_reserved(store, size, granted)
    }

    /// Asks the allocator for `size` zeroed elements; `None` where it refused.
    /// Only a request for at least one element can be refused: for a `size`
    /// of zero the result is always an array, which is empty.
    pub fn try_allocate(size: usize) -> (r: Option<Self>)
        ensures
            r matches Some(this) ==> !this.is_null() && this@ == splats::<T>(0, size as nat),
            size == 0 ==> r is Some,
    {
        let this = Self::allocate_ignore(size);
        if this.is_null() {
            None
        } else {
            Some(this)
        }
    }

    /// An array of `size` elements whose bytes are all zero.
    pub fn allocate(size: usize) -> (this: Self)
        requires
            size > 0,
        ensures
            !this.is_null(),
            this@.len() == size,
            this@ == splats::<T>(0, size as nat),
            this.bytes() == repeat(0, size as nat * T::width()),
    {
        let mut store: Vec<T> = Vec::with_capacity(size);
        push_splats(&mut store, 0, size);
        proof {
            lemma_flatten_splats::<T>(0, size as nat);
        }
        HeapArray::from_vec(store)
    }

    /// A copy of the bytes of the block.
    pub fn as_bytes(&self) -> (out: Vec<u8>)
        ensures
            out@ == self.bytes(),
    {
        to_block(self.as_slice())
    }

    /// Sets the byte at `index` of the block to `value` and leaves every
    /// other byte as it was.
    pub fn set_byte(&mut self, index: usize, value: u8)
        requires
            index < old(self).bytes().len(),
        ensures
            final(self).bytes() == old(self).bytes().update(index as int, value),
            final(self)@.len() == old(self)@.len(),
            final(self).is_null() == old(self).is_null(),
    {
        proof {
            T::lemma_width();
            lemma_flatten_len(self@);
            lemma_flatten_index(self@, index as int);
        }
        let width: usize = T::size();
        let slot: usize = index / width;
        let place: usize = index % width;
        let mut piece: Vec<u8> = Vec::new();
        encode(*self.index(slot), &mut piece);
        assert(piece@ =~= old(self)@[slot as int].bytes_of());
        piece.set(place, value);
        assert(piece@.subrange(0, T::width() as int) =~= piece@);
        let x: T = decode(piece.as_slice(), 0);
        self.set(slot, x);
        proof {
            T::lemma_of_bytes(piece@);
            let before = old(self).bytes();
            let after = self.bytes();
            let w = width as int;
            let at = index as int;
            lemma_flatten_len(self@);
            assert forall|i: int| 0 <= i < before.len() implies after[i] == before.update(
                at,
                value,
            )[i] by {
                lemma_flatten_index(old(self)@, i);
                lemma_flatten_index(self@, i);
                lemma_slot_of_index(i, self@.len() as int, w);
                lemma_slot_of_index(at, self@.len() as int, w);
                if i / w == at / w && i % w == at % w {
                    assert(i == at) by (nonlinear_arith)
                        requires
                            w > 0,
                            i == (i / w) * w + i % w,
                            at == (at / w) * w + at % w,
                            i / w == at / w,
                            i % w == at % w,
                    ;
                }
            }
            assert(after =~= before.update(index as int, value));
        }
    }

    /// Sets every byte of the block to `value`.
    pub fn fill_bytes(&mut self, value: u8)
        ensures
            final(self)@ == splats::<T>(value, old(self)@.len()),
            final(self).bytes() == repeat(value, old(self)@.len() * T::width()),
            final(self).is_null() == old(self).is_null(),
    {
        let x: T = splatted(value);
        let count: usize = self.len();
        let mut i: usize = 0;
        while i < count
            invariant
                i <= count,
                x == splat::<T>(value),
                self@.len() == count == old(self)@.len(),
                self.is_null() == old(self).is_null(),
                forall|j: int| 0 <= j < i ==> #[trigger] self@[j] == x,
            decreases count - i,
        {
            self.set(i, x);
            i = i + 1;
        }
        proof {
            assert(self@ =~= splats::<T>(value, count as nat));
            lemma_flatten_splats::<T>(value, count as nat);
        }
    }

    /// Whether the two blocks hold the same bytes. Elements are plain bytes,
    /// so that is the case exactly when the arrays hold the same elements.
    pub fn mem_eq(&self, other: &Self) -> (r: bool)
        ensures
            r == (self.bytes() == other.bytes()),
            r == (self@ == other@),
    {
        proof {
            if self.bytes() == other.bytes() {
                lemma_flatten_injective(self@, other@);
            }
        }
        let mine: &[T] = self.as_slice();
        let theirs: &[T] = other.as_slice();
        if mine.len() != theirs.len() {
            return false;
        }
        let count: usize = mine.len();
        let mut i: usize = 0;
        while i < count
            invariant
                i <= count,
                mine@ == self@,
                theirs@ == other@,
                count == mine@.len() == theirs@.len(),
                self.bytes() == other.bytes() ==> self@ == other@,
                forall|j: int| 0 <= j < i ==> #[trigger] mine@[j] == theirs@[j],
            decreases count - i,
        {
            if !same_bytes(mine[i], theirs[i]) {
                return false;
            }
            i = i + 1;
        }
        assert(self@ =~= other@);
        true
    }

    /// A new array made from a copy of the bytes of this one.
    pub fn clone_mem(&self) -> (copy: Self)
        ensures
            copy@ == self@,
            copy.bytes() == self.bytes(),
            copy.is_null() == self.is_null(),
    {
        if self.is_null() {
            proof {
                self.lemma_null_is_empty();
                assert(self@ =~= Seq::<T>::empty());
            }
            let copy = HeapArray::null();
            assert(copy@ =~= self@);
            copy
        } else {
            let block: Vec<u8> = self.as_bytes();
            proof {
                lemma_unflatten_flatten(self@);
            }
            HeapArray::from_vec(from_block::<T>(block.as_slice()))
        }
    }

    /// Reads the bytes of the block as elements of `U`. The block must hold a
    /// whole number of them.
    pub fn reinterpret<U: Element>(self) -> (this: HeapArray<U>)
        requires
            self.bytes().len() % U::width() == 0,
        ensures
            this@ == unflatten::<U>(self.bytes()),
            this@.len() == self.bytes().len() / U::width(),
            this.bytes() == self.bytes(),
            this.is_null() == self.is_null(),
    {
        proof {
            U::lemma_width();
            lemma_flatten_unflatten::<U>(self.bytes());
            assert(unflatten::<U>(self.bytes()).len() == self.bytes().len() / U::width());
        }
        if self.is_null() {
            proof {
                self.lemma_null_is_empty();
                U::lemma_width();
                assert(self.bytes() =~= Seq::<u8>::empty());
                assert(0int / (U::width() as int) == 0);
            }
            let this = HeapArray::<U>::null();
            assert(this@ =~= unflatten::<U>(self.bytes()));
            this
        } else {
            let block: Vec<u8> = self.as_bytes();
            HeapArray::from_vec(from_block::<U>(block.as_slice()))
        }
    }

    /// Reads the bytes of the block as elements of `U` where the block holds a
    /// whole number of them, and hands the array back unchanged where it does
    /// not.
    pub fn try_reinterpret<U: Element>(self) -> (r: Result<HeapArray<U>, Self>)
        ensures
            match r {
                Ok(this) => {
                    &&& self.bytes().len() % U::width() == 0
                    &&& this@ == unflatten::<U>(self.bytes())
                    &&& this.bytes() == self.bytes()
                    &&& this.is_null() == self.is_null()
                },
                Err(this) => {
                    &&& self.bytes().len() % U::width() != 0
                    &&& this@ == self@
                    &&& this.is_null() == self.is_null()
                },
            },
    {
        proof {
            T::lemma_width();
            U::lemma_width();
            lemma_flatten_len(self@);
        }
        if self.len_bytes() % U::size() == 0 {
            Ok(self.reinterpret::<U>())
        } else {
            Err(self)
        }
    }

    /// Resizes the block to `size` elements. The elements up to the smaller of
    /// the old and the new length stay; elements that are added are zeroed.
    pub fn reallocate(&mut self, size: usize) -> (this: &mut Self)
        requires
            size > 0,
        ensures
            this@ == resized(old(self)@, size as nat),
            !this.is_null(),
            *final(self) == *final(this),
    {
        let mut taken: Self = HeapArray::null();
        core::mem::swap(self, &mut taken);
        let ghost before = taken@;
        let mut store: Vec<T> = taken.into_vec();
        store.truncate(size);
        let filler: T = zeroed();
        while store.len() < size
            invariant
                filler == zero::<T>(),
                store@.len() <= size,
                before.len() <= store@.len() || size <= store@.len(),
                forall|j: int|
                    0 <= j < store@.len() ==> #[trigger] store@[j] == resized(before, size as nat)[j],
            decreases size - store@.len(),
        {
            store.push(filler);
        }
        assert(store@ =~= resized(before, size as nat));
        *self = HeapArray::from_vec(store);
        self
    }

    /// Moves the elements out of `slice` into a new array, and leaves zeroed
    /// elements behind.
    pub fn from_slice(slice: &mut [T]) -> (this: Self)
        ensures
            this@ == old(slice)@,
            !this.is_null(),
            final(slice)@ == splats::<T>(0, old(slice)@.len()),
    {
        let count: usize = slice.len();
        let filler: T = zeroed();
        let mut store: Vec<T> = Vec::with_capacity(count);
        let mut i: usize = 0;
        while i < count
            invariant
                i <= count,
                filler == zero::<T>(),
                slice@.len() == count == old(slice)@.len(),
                store@ == old(slice)@.take(i as int),
                forall|j: int| 0 <= j < i ==> #[trigger] slice@[j] == filler,
                forall|j: int| i <= j < count ==> #[trigger] slice@[j] == old(slice)@[j],
            decreases count - i,
        {
            let x: T = slice[i];
            store.push(x);
            slice[i] = filler;
            assert(store@ =~= old(slice)@.take(i + 1));
            i = i + 1;
        }
        assert(store@ =~= old(slice)@);
        assert(slice@ =~= splats::<T>(0, count as nat));
        HeapArray::from_vec(store)
    }
}

/// Moves the elements out of `slice` onto the heap, as a boxed slice, and
/// leaves zeroed elements behind. An empty slice asks for no block.
pub fn box_slice<T: Element>(slice: &mut [T]) -> (boxed: Box<[T]>)
    ensures
        boxed@ == old(slice)@,
        final(slice)@ == splats::<T>(0, old(slice)@.len()),
{
    if slice.len() == 0 {
        let empty: HeapArray<T> = HeapArray::null();
        proof {
            empty.lemma_null_is_empty();
            assert(empty@ =~= slice@);
            assert(slice@ =~= splats::<T>(0, 0));
        }
        empty.into_box()
    } else {
        HeapArray::from_slice(slice).into_box()
    }
}

} // verus!
