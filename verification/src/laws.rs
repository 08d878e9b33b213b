//! Laws that relate several operations of the heap array.
//!
//! Each law is stated over the views and spec functions that the contracts of
//! the operations use, and proved from those contracts alone.

use vstd::prelude::*;
use std::collections::hash_map::DefaultHasher;
use vstd::std_specs::hash::DefaultHasherAdditionalSpecFns;
use crate::array::HeapArray;
use crate::block::{flatten, splats, unflatten};
use crate::block::{lemma_flatten_unflatten, lemma_unflatten_flatten};
use crate::bytes::{le_value, repeat};
use crate::bytes::lemma_le_value_zero;
use crate::element::{splat, zero, Element};
use crate::value::hash_feed;

verus! {

/// A clone holds the elements of the array it was cloned from, in order,
/// wherever a clone of an element is that element.
pub proof fn law_clone_is_equal<T: Clone>(a: HeapArray<T>, copy: HeapArray<T>)
    requires
        call_ensures(<HeapArray<T> as Clone>::clone, (&a,), copy),
        forall|x: T, y: T| cloned(x, y) ==> x == y,
    ensures
        copy@ == a@,
        copy.is_null() == a.is_null(),
{
    assert(copy@ =~= a@);
}

/// A copy of the memory of an array holds the same elements and the same
/// bytes.
pub proof fn law_clone_mem_is_equal<T: Element>(a: HeapArray<T>, copy: HeapArray<T>)
    requires
        call_ensures(HeapArray::<T>::clone_mem, (&a,), copy),
    ensures
        copy@ == a@,
        copy.bytes() == a.bytes(),
{
}

/// Arrays of equal length with equal elements feed the same bytes to a hasher,
/// and so a hasher in the same state ends in the same hash for both.
pub proof fn law_equal_arrays_hash_alike<T: Element>(
    a: HeapArray<T>,
    b: HeapArray<T>,
    state: Seq<Seq<u8>>,
)
    requires
        a@.len() == b@.len(),
        forall|i: int| 0 <= i < a@.len() ==> a@[i] == b@[i],
    ensures
        hash_feed(a@) == hash_feed(b@),
        DefaultHasher::spec_finish(state + hash_feed(a@)) == DefaultHasher::spec_finish(
            state + hash_feed(b@),
        ),
{
    assert(a@ =~= b@);
}

/// An array that is turned into a boxed slice and back holds the same
/// elements, in order.
pub proof fn law_box_round_trip<T>(a: HeapArray<T>, boxed: Box<[T]>, back: HeapArray<T>)
    requires
        call_ensures(HeapArray::<T>::into_box, (a,), boxed),
        call_ensures(HeapArray::<T>::from_boxed, (boxed,), back),
    ensures
        back@ == a@,
        back@.len() == a@.len(),
{
}

/// An array that is turned into a vector and back holds the same elements, in
/// order.
pub proof fn law_vec_round_trip<T>(a: HeapArray<T>, vec: Vec<T>, back: HeapArray<T>)
    requires
        call_ensures(HeapArray::<T>::into_vec, (a,), vec),
        call_ensures(HeapArray::<T>::from_vec, (vec,), back),
    ensures
        back@ == a@,
        back@.len() == a@.len(),
{
}

/// Reading the bytes of elements of `T` as elements of `U` and those again as
/// elements of `T` gives the elements that were there, where the bytes are a
/// whole number of elements of `U`. The bytes are the same at every step.
pub proof fn law_reinterpret_round_trip<T: Element, U: Element>(s: Seq<T>)
    requires
        flatten(s).len() % U::width() == 0,
    ensures
        flatten(unflatten::<U>(flatten(s))) == flatten(s),
        unflatten::<T>(flatten(unflatten::<U>(flatten(s)))) == s,
{
    lemma_flatten_unflatten::<U>(flatten(s));
    lemma_unflatten_flatten::<T>(s);
}

/// An array that is reinterpreted as elements of `U` and back as elements of
/// `T` holds the bytes and the elements that it held before.
pub proof fn law_reinterpret_back<T: Element, U: Element>(
    a: HeapArray<T>,
    there: HeapArray<U>,
    back: HeapArray<T>,
)
    requires
        a.bytes().len() % U::width() == 0,
        call_ensures(HeapArray::<T>::reinterpret::<U>, (a,), there),
        call_ensures(HeapArray::<U>::reinterpret::<T>, (there,), back),
    ensures
        there.bytes() == a.bytes(),
        back.bytes() == a.bytes(),
        back@ == a@,
{
    lemma_unflatten_flatten::<T>(a@);
}

/// The element of zero bytes is the number zero, for every integer type: a
/// freshly allocated array of integers holds zeros.
pub proof fn law_zeroed_integers_are_zero()
    ensures
        zero::<u8>() == 0u8,
        zero::<i8>() == 0i8,
        zero::<u16>() == 0u16,
        zero::<i16>() == 0i16,
        zero::<u32>() == 0u32,
        zero::<i32>() == 0i32,
        zero::<u64>() == 0u64,
        zero::<i64>() == 0i64,
{
    lemma_le_value_zero(1);
    lemma_le_value_zero(2);
    lemma_le_value_zero(4);
    lemma_le_value_zero(8);
}

/// An array of single bytes that is filled with the byte `value` holds
/// `value` at every index.
pub proof fn law_filled_bytes_are_the_byte(value: u8, n: nat)
    ensures
        splat::<u8>(value) == value,
        splats::<u8>(value, n) == Seq::new(n, |i: int| value),
{
    let b = repeat(value, 1);
    assert(b.skip(1).len() == 0);
    assert(le_value(b.skip(1)) == 0);
    assert(le_value(b) == value);
    assert(splats::<u8>(value, n) =~= Seq::new(n, |i: int| value));
}

} // verus!
