//! Little-endian byte images of unsigned numbers.
//!
//! A block of memory is modelled as a `Seq<u8>`. The functions here relate a
//! natural number to the bytes that store it, low byte first, and prove that
//! the two directions are inverse to each other.

use vstd::prelude::*;

verus! {

/// The number of distinct values that `n` bytes can hold: 256 to the power `n`.
pub open spec fn radix(n: nat) -> nat
    decreases n,
{
    if n == 0 {
        1
    } else {
        256 * radix((n - 1) as nat)
    }
}

/// The `n` low bytes of `v`, lowest first.
pub open spec fn le_bytes(v: nat, n: nat) -> Seq<u8>
    decreases n,
{
    if n == 0 {
        Seq::empty()
    } else {
        seq![(v % 256) as u8] + le_bytes(v / 256, (n - 1) as nat)
    }
}

/// The number that the bytes `b` store, lowest byte first.
pub open spec fn le_value(b: Seq<u8>) -> nat
    decreases b.len(),
{
    if b.len() == 0 {
        0
    } else {
        b[0] as nat + 256 * le_value(b.skip(1))
    }
}

/// `n` bytes that are all `value`.
pub open spec fn repeat(value: u8, n: nat) -> Seq<u8> {
    Seq::new(n, |i: int| value)
}

/// The values of `radix` at the widths of the machine integers.
pub proof fn lemma_radix_values()
    ensures
        radix(0) == 1,
        radix(1) == 0x100,
        radix(2) == 0x1_0000,
        radix(4) == 0x1_0000_0000,
        radix(8) == 0x1_0000_0000_0000_0000,
{
    assert(radix(1) == 256 * radix(0));
    assert(radix(2) == 256 * radix(1));
    assert(radix(3) == 256 * radix(2));
    assert(radix(4) == 256 * radix(3));
    assert(radix(5) == 256 * radix(4));
    assert(radix(6) == 256 * radix(5));
    assert(radix(7) == 256 * radix(6));
    assert(radix(8) == 256 * radix(7));
}

/// `radix` is positive and grows with the width.
pub proof fn lemma_radix_grows(m: nat, n: nat)
    requires
        m <= n,
    ensures
        0 < radix(m) <= radix(n),
    decreases n,
{
    if m < n {
        lemma_radix_grows(m, (n - 1) as nat);
    } else if n > 0 {
        lemma_radix_grows((m - 1) as nat, (n - 1) as nat);
    }
}

/// `le_bytes(v, n)` has `n` bytes.
pub proof fn lemma_le_bytes_len(v: nat, n: nat)
    ensures
        le_bytes(v, n).len() == n,
    decreases n,
{
    if n > 0 {
        lemma_le_bytes_len(v / 256, (n - 1) as nat);
    }
}

/// The bytes `b` store a number below `radix(b.len())`.
pub proof fn lemma_le_value_bound(b: Seq<u8>)
    ensures
        le_value(b) < radix(b.len()),
    decreases b.len(),
{
    if b.len() > 0 {
        lemma_le_value_bound(b.skip(1));
    }
}

/// Storing a number that fits in `n` bytes and reading it back gives the number.
pub proof fn lemma_le_value_of_bytes(v: nat, n: nat)
    requires
        v < radix(n),
    ensures
        le_value(le_bytes(v, n)) == v,
    decreases n,
{
    if n > 0 {
        let rest = le_bytes(v / 256, (n - 1) as nat);
        let all = le_bytes(v, n);
        lemma_le_bytes_len(v / 256, (n - 1) as nat);
        assert(all.skip(1) =~= rest);
        lemma_le_value_of_bytes(v / 256, (n - 1) as nat);
        assert(all[0] == (v % 256) as u8);
    }
}

/// Reading bytes as a number and storing it in as many bytes gives the bytes.
pub proof fn lemma_le_bytes_of_value(b: Seq<u8>)
    ensures
        le_bytes(le_value(b), b.len()) == b,
    decreases b.len(),
{
    if b.len() > 0 {
        let rest = b.skip(1);
        lemma_le_bytes_of_value(rest);
        let v = le_value(b);
        assert(v % 256 == b[0] as nat);
        assert(v / 256 == le_value(rest));
        assert(le_bytes(v, b.len()) =~= b);
    } else {
        assert(le_bytes(le_value(b), b.len()) =~= b);
    }
}

/// Two numbers that fit in `n` bytes and have the same bytes are the same number.
pub proof fn lemma_le_bytes_injective(v: nat, w: nat, n: nat)
    requires
        v < radix(n),
        w < radix(n),
        le_bytes(v, n) == le_bytes(w, n),
    ensures
        v == w,
{
    lemma_le_value_of_bytes(v, n);
    lemma_le_value_of_bytes(w, n);
}

/// The bytes of zero are all zero.
pub proof fn lemma_le_bytes_zero(n: nat)
    ensures
        le_bytes(0, n) == repeat(0, n),
    decreases n,
{
    if n > 0 {
        lemma_le_bytes_zero((n - 1) as nat);
        lemma_le_bytes_len(0, (n - 1) as nat);
    }
    lemma_le_bytes_len(0, n);
    assert(le_bytes(0, n) =~= repeat(0, n));
}

/// Bytes that are all zero store the number zero.
pub proof fn lemma_le_value_zero(n: nat)
    ensures
        le_value(repeat(0, n)) == 0,
    decreases n,
{
    if n > 0 {
        lemma_le_value_zero((n - 1) as nat);
        assert(repeat(0, n).skip(1) =~= repeat(0, (n - 1) as nat));
    }
}

} // verus!
