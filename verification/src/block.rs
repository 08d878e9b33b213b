//! A sequence of elements seen as one block of bytes, and back.

use vstd::prelude::*;
use crate::bytes::repeat;
use crate::element::{decode, encode, splat, Element};

verus! {

/// The bytes of the elements of `s`, one element after the other.
pub open spec fn flatten<T: Element>(s: Seq<T>) -> Seq<u8>
    decreases s.len(),
{
    if s.len() == 0 {
        Seq::empty()
    } else {
        flatten(s.drop_last()) + s.last().bytes_of()
    }
}

/// The bytes of `b` at which element `k` of width `w` lies.
pub open spec fn chunk(b: Seq<u8>, w: nat, k: int) -> Seq<u8> {
    b.subrange(k * w, (k + 1) * w)
}

/// The elements that the bytes `b` hold: as many as fit, in order.
pub open spec fn unflatten<U: Element>(b: Seq<u8>) -> Seq<U> {
    Seq::new(b.len() / U::width(), |k: int| U::of_bytes(chunk(b, U::width(), k)))
}

/// `n` elements whose bytes are all `value`.
pub open spec fn splats<T: Element>(value: u8, n: nat) -> Seq<T> {
    Seq::new(n, |i: int| splat::<T>(value))
}

/// Products of naturals: the facts about `k * w` that the proofs below use.
pub proof fn lemma_slot_bounds(k: int, n: int, w: int)
    requires
        0 <= k < n,
        0 < w,
    ensures
        0 <= k * w,
        (k + 1) * w == k * w + w,
        (k + 1) * w <= n * w,
        (n - 1) * w == n * w - w,
{
    assert(0 <= k * w) by (nonlinear_arith)
        requires
            0 <= k,
            0 < w,
    ;
    assert((k + 1) * w == k * w + w) by (nonlinear_arith);
    assert((k + 1) * w <= n * w) by (nonlinear_arith)
        requires
            k + 1 <= n,
            0 < w,
    ;
    assert((n - 1) * w == n * w - w) by (nonlinear_arith);
}

/// A byte index splits into the index of its element and a place within it.
pub proof fn lemma_slot_of_index(i: int, n: int, w: int)
    requires
        0 < w,
        0 <= i < n * w,
    ensures
        0 <= i / w < n,
        0 <= i % w < w,
        i == (i / w) * w + i % w,
{
    assert(0 <= i / w < n && 0 <= i % w < w && i == (i / w) * w + i % w) by (nonlinear_arith)
        requires
            0 < w,
            0 <= i < n * w,
    ;
}

/// A whole number of elements: `n * w` divided by `w` is `n`, with nothing left.
pub proof fn lemma_slots_divide(n: int, w: int)
    requires
        0 <= n,
        0 < w,
    ensures
        (n * w) / w == n,
        (n * w) % w == 0,
{
    assert((n * w) / w == n && (n * w) % w == 0) by (nonlinear_arith)
        requires
            0 <= n,
            0 < w,
    ;
}

/// A length that `w` divides is a whole number of elements.
pub proof fn lemma_divided_len(len: int, w: int)
    requires
        0 <= len,
        0 < w,
        len % w == 0,
    ensures
        (len / w) * w == len,
        0 <= len / w,
{
    assert((len / w) * w == len && 0 <= len / w) by (nonlinear_arith)
        requires
            0 <= len,
            0 < w,
            len % w == 0,
    ;
}

/// The elements that fit in `len` bytes take no more than `len` bytes.
pub proof fn lemma_floor_slots(len: int, w: int)
    requires
        0 <= len,
        0 < w,
    ensures
        0 <= len / w,
        (len / w) * w <= len,
{
    assert(0 <= len / w && (len / w) * w <= len) by (nonlinear_arith)
        requires
            0 <= len,
            0 < w,
    ;
}

/// Appending an element appends its bytes.
pub proof fn lemma_flatten_push<T: Element>(s: Seq<T>, x: T)
    ensures
        flatten(s.push(x)) == flatten(s) + x.bytes_of(),
{
    assert(s.push(x).drop_last() =~= s);
}

/// The block of `s` has `s.len() * width` bytes.
pub proof fn lemma_flatten_len<T: Element>(s: Seq<T>)
    ensures
        flatten(s).len() == s.len() * T::width(),
    decreases s.len(),
{
    T::lemma_width();
    if s.len() > 0 {
        lemma_flatten_len(s.drop_last());
        s.last().lemma_bytes_of();
        lemma_slot_bounds(s.len() - 1, s.len() as int, T::width() as int);
    } else {
        assert(0 * T::width() == 0);
    }
}

/// Element `k` of `s` lies at chunk `k` of the block.
pub proof fn lemma_flatten_chunk<T: Element>(s: Seq<T>, k: int)
    requires
        0 <= k < s.len(),
    ensures
        chunk(flatten(s), T::width(), k) == s[k].bytes_of(),
    decreases s.len(),
{
    T::lemma_width();
    let w = T::width();
    let front = s.drop_last();
    lemma_flatten_len(front);
    lemma_flatten_len(s);
    s.last().lemma_bytes_of();
    lemma_slot_bounds(k, s.len() as int, w as int);
    if k < s.len() - 1 {
        lemma_flatten_chunk(front, k);
        lemma_slot_bounds(k, s.len() - 1, w as int);
        assert(chunk(flatten(s), w, k) =~= chunk(flatten(front), w, k));
    } else {
        assert(chunk(flatten(s), w, k) =~= s.last().bytes_of());
    }
}

/// Byte `i` of the block is byte `i % width` of element `i / width`.
pub proof fn lemma_flatten_index<T: Element>(s: Seq<T>, i: int)
    requires
        0 <= i < s.len() * T::width(),
    ensures
        0 <= i / (T::width() as int) < s.len(),
        0 <= i % (T::width() as int) < T::width(),
        flatten(s).len() == s.len() * T::width(),
        s[i / (T::width() as int)].bytes_of().len() == T::width(),
        flatten(s)[i] == s[i / (T::width() as int)].bytes_of()[i % (T::width() as int)],
{
    T::lemma_width();
    let w = T::width() as int;
    let k = i / w;
    lemma_flatten_len(s);
    lemma_slot_of_index(i, s.len() as int, w);
    lemma_slot_bounds(k, s.len() as int, w);
    lemma_flatten_chunk(s, k);
    s[k].lemma_bytes_of();
    assert(chunk(flatten(s), T::width(), k)[i % w] == flatten(s)[i]);
}

/// Reading the block of `s` as elements of the same type gives `s`.
pub proof fn lemma_unflatten_flatten<T: Element>(s: Seq<T>)
    ensures
        unflatten::<T>(flatten(s)) == s,
{
    T::lemma_width();
    lemma_flatten_len(s);
    lemma_slots_divide(s.len() as int, T::width() as int);
    assert forall|k: int| 0 <= k < s.len() implies #[trigger] unflatten::<T>(flatten(s))[k]
        == s[k] by {
        lemma_flatten_chunk(s, k);
        s[k].lemma_bytes_of();
    }
    assert(unflatten::<T>(flatten(s)) =~= s);
}

/// The block of the elements read from `b` is `b`, where `b` is a whole number of elements.
pub proof fn lemma_flatten_unflatten<U: Element>(b: Seq<u8>)
    requires
        b.len() % U::width() == 0,
    ensures
        flatten(unflatten::<U>(b)) == b,
{
    U::lemma_width();
    let w = U::width();
    let s = unflatten::<U>(b);
    let n = s.len();
    lemma_divided_len(b.len() as int, w as int);
    lemma_flatten_len(s);
    assert forall|i: int| 0 <= i < b.len() implies #[trigger] flatten(s)[i] == b[i] by {
        lemma_slot_of_index(i, n as int, w as int);
        let k = i / (w as int);
        lemma_slot_bounds(k, n as int, w as int);
        lemma_flatten_chunk(s, k);
        U::lemma_of_bytes(chunk(b, w, k));
        assert(chunk(flatten(s), w, k)[i % (w as int)] == flatten(s)[i]);
        assert(chunk(b, w, k)[i % (w as int)] == b[i]);
    }
    assert(flatten(s) =~= b);
}

/// Two sequences with the same block are the same sequence.
pub proof fn lemma_flatten_injective<T: Element>(s: Seq<T>, t: Seq<T>)
    requires
        flatten(s) == flatten(t),
    ensures
        s == t,
{
    lemma_unflatten_flatten(s);
    lemma_unflatten_flatten(t);
}

/// The block of `n` elements made of the byte `value` is `value` throughout.
pub proof fn lemma_flatten_splats<T: Element>(value: u8, n: nat)
    ensures
        flatten(splats::<T>(value, n)) == repeat(value, n * T::width()),
{
    T::lemma_width();
    let w = T::width();
    let b = repeat(value, n * w);
    lemma_slots_divide(n as int, w as int);
    assert forall|k: int| 0 <= k < n implies #[trigger] unflatten::<T>(b)[k] == splat::<T>(
        value,
    ) by {
        lemma_slot_bounds(k, n as int, w as int);
        assert(chunk(b, w, k) =~= repeat(value, w));
    }
    assert(unflatten::<T>(b) =~= splats::<T>(value, n));
    lemma_flatten_unflatten::<T>(b);
}

/// The block of the elements of `s`, as bytes.
pub fn to_block<T: Element>(s: &[T]) -> (out: Vec<u8>)
    ensures
        out@ == flatten(s@),
{
    let count: usize = s.len();
    let mut out: Vec<u8> = Vec::new();
    let mut i: usize = 0;
    assert(s@.take(0) =~= Seq::<T>::empty());
    while i < count
        invariant
            i <= count == s@.len(),
            out@ == flatten(s@.take(i as int)),
        decreases count - i,
    {
        proof {
            lemma_flatten_push(s@.take(i as int), s@[i as int]);
            assert(s@.take(i + 1) =~= s@.take(i as int).push(s@[i as int]));
        }
        encode(s[i], &mut out);
        i = i + 1;
    }
    assert(s@.take(count as int) =~= s@);
    out
}

/// The elements that the bytes of `b` hold.
pub fn from_block<U: Element>(b: &[u8]) -> (out: Vec<U>)
    ensures
        out@ == unflatten::<U>(b@),
{
    proof {
        U::lemma_width();
        lemma_floor_slots(b@.len() as int, U::width() as int);
    }
    let width: usize = U::size();
    let count: usize = b.len() / width;
    let mut out: Vec<U> = Vec::new();
    let mut k: usize = 0;
    let mut at: usize = 0;
    while k < count
        invariant
            k <= count == b@.len() / U::width(),
            width == U::width() > 0,
            count * width <= b@.len() <= usize::MAX,
            at == k * width,
            out@.len() == k,
            forall|j: int| 0 <= j < k ==> #[trigger] out@[j] == unflatten::<U>(b@)[j],
        decreases count - k,
    {
        proof {
            lemma_slot_bounds(k as int, count as int, width as int);
        }
        let x: U = decode(b, at);
        out.push(x);
        at = at + width;
        k = k + 1;
    }
    assert(out@ =~= unflatten::<U>(b@));
    out
}

} // verus!
