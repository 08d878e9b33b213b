//! Element types whose values are plain bytes.
//!
//! An [`Element`] has a fixed width in bytes, and every pattern of that many
//! bytes is one of its values. That makes it meaningful to look at a block of
//! elements as bytes, to overwrite it byte by byte, and to read the same bytes
//! as elements of another such type.

use vstd::prelude::*;
use vstd::layout::size_of;
use crate::bytes::{le_bytes, le_value, radix, repeat};
use crate::bytes::{
    lemma_le_bytes_of_value, lemma_le_bytes_zero, lemma_le_value_bound, lemma_radix_grows,
    lemma_radix_values,
};

verus! {

/// A type of fixed width whose values and byte patterns correspond one to one.
pub trait Element: Copy {
    /// The number of bytes that one value occupies.
    spec fn width() -> nat;

    /// The bytes of a value, in the order in which they lie in the block.
    spec fn bytes_of(self) -> Seq<u8>;

    /// The value that `width()` bytes hold.
    spec fn of_bytes(b: Seq<u8>) -> Self;

    /// The width is between one and eight bytes, and is the size of the type.
    proof fn lemma_width()
        ensures
            0 < Self::width() <= 8,
            Self::width() == size_of::<Self>(),
    ;

    /// A value has `width()` bytes, and they hold that value.
    proof fn lemma_bytes_of(self)
        ensures
            self.bytes_of().len() == Self::width(),
            Self::of_bytes(self.bytes_of()) == self,
    ;

    /// Every pattern of `width()` bytes is the image of the value it holds.
    proof fn lemma_of_bytes(b: Seq<u8>)
        requires
            b.len() == Self::width(),
        ensures
            Self::of_bytes(b).bytes_of() == b,
    ;

    /// The width, as a machine number.
    fn size() -> (n: usize)
        ensures
            n == Self::width(),
    ;

    /// The bytes of the value, packed into one word, lowest byte first.
    fn to_bits(self) -> (v: u64)
        ensures
            v < radix(Self::width()),
            le_bytes(v as nat, Self::width()) == self.bytes_of(),
    ;

    /// The value whose bytes are the `width()` low bytes of `v`.
    fn from_bits(v: u64) -> (x: Self)
        requires
            v < radix(Self::width()),
        ensures
            x == Self::of_bytes(le_bytes(v as nat, Self::width())),
    ;
}

/// The element whose bytes are all zero.
pub open spec fn zero<T: Element>() -> T {
    T::of_bytes(repeat(0, T::width()))
}

/// The element whose bytes are all `value`.
pub open spec fn splat<T: Element>(value: u8) -> T {
    T::of_bytes(repeat(value, T::width()))
}

/// Appends the `n` low bytes of `v` to `out`, lowest first.
pub fn push_le(out: &mut Vec<u8>, v: u64, n: usize)
    requires
        n <= 8,
    ensures
        final(out)@ == old(out)@ + le_bytes(v as nat, n as nat),
{
    let ghost before = out@;
    let mut rest: u64 = v;
    let mut i: usize = 0;
    while i < n
        invariant
            i <= n,
            before + le_bytes(v as nat, n as nat) == out@ + le_bytes(rest as nat, (n - i) as nat),
        decreases n - i,
    {
        let low: u8 = (rest % 256) as u8;
        proof {
            let tail = le_bytes((rest / 256) as nat, (n - i - 1) as nat);
            assert(le_bytes(rest as nat, (n - i) as nat) == seq![low] + tail);
            assert(out@.push(low) + tail =~= out@ + (seq![low] + tail));
        }
        out.push(low);
        rest = rest / 256;
        i = i + 1;
    }
    assert(out@ + le_bytes(rest as nat, 0) =~= out@);
}

/// Reads the `n` bytes of `b` that start at `at` as one word, lowest byte first.
pub fn read_le(b: &[u8], at: usize, n: usize) -> (v: u64)
    requires
        n <= 8,
        at + n <= b@.len(),
    ensures
        v == le_value(b@.subrange(at as int, at + n)),
        v < radix(n as nat),
{
    let total: usize = b.len();
    let mut acc: u64 = 0;
    let mut i: usize = n;
    assert(le_value(b@.subrange(at + n, at + n)) == 0);
    while i > 0
        invariant
            i <= n <= 8,
            at + n <= b@.len() == total,
            acc == le_value(b@.subrange(at + i, at + n)),
        decreases i,
    {
        let byte: u8 = b[at + (i - 1)];
        proof {
            let longer = b@.subrange(at + i - 1, at + n);
            let shorter = b@.subrange(at + i, at + n);
            assert(longer.skip(1) =~= shorter);
            assert(longer[0] == byte);
            lemma_le_value_bound(shorter);
            lemma_radix_grows((n - i) as nat, 7);
            lemma_radix_values();
            assert(radix(8) == 256 * radix(7));
        }
        acc = acc * 256 + byte as u64;
        i = i - 1;
    }
    proof {
        lemma_le_value_bound(b@.subrange(at as int, at + n));
    }
    acc
}

/// The element whose bytes are all zero.
pub fn zeroed<T: Element>() -> (x: T)
    ensures
        x == zero::<T>(),
{
    proof {
        T::lemma_width();
        lemma_radix_grows(0, T::width());
        lemma_le_bytes_zero(T::width());
    }
    T::from_bits(0)
}

/// Appends the bytes of `x` to `out`.
pub fn encode<T: Element>(x: T, out: &mut Vec<u8>)
    ensures
        final(out)@ == old(out)@ + x.bytes_of(),
{
    proof {
        T::lemma_width();
    }
    push_le(out, x.to_bits(), T::size());
}

/// The element that lies in `b` from index `at` on.
pub fn decode<T: Element>(b: &[u8], at: usize) -> (x: T)
    requires
        at + T::width() <= b@.len(),
    ensures
        x == T::of_bytes(b@.subrange(at as int, at + T::width())),
{
    proof {
        T::lemma_width();
        lemma_le_bytes_of_value(b@.subrange(at as int, at + T::width()));
    }
    T::from_bits(read_le(b, at, T::size()))
}

/// The element whose bytes are all `value`.
pub fn splatted<T: Element>(value: u8) -> (x: T)
    ensures
        x == splat::<T>(value),
{
    proof {
        T::lemma_width();
    }
    let width: usize = T::size();
    let mut pattern: Vec<u8> = Vec::new();
    let mut i: usize = 0;
    while i < width
        invariant
            i <= width == T::width(),
            pattern@ == repeat(value, i as nat),
        decreases width - i,
    {
        pattern.push(value);
        assert(pattern@ =~= repeat(value, (i + 1) as nat));
        i = i + 1;
    }
    assert(pattern@.subrange(0, T::width() as int) =~= repeat(value, T::width()));
    decode(pattern.as_slice(), 0)
}

} // verus!
