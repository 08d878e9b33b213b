//! The heap array as text: element count, element size, size in bytes, and
//! the bytes of the block in lowercase hexadecimal.

use vstd::prelude::*;
use crate::array::HeapArray;
use crate::block::flatten;
use crate::block::lemma_flatten_len;
use crate::element::Element;

verus! {

/// `String::push`: the character is appended to the string.
pub assume_specification[ String::push ](s: &mut String, ch: char)
    ensures
        final(s)@ == old(s)@.push(ch),
;

/// The sixteen digits, in order of their value.
pub open spec fn digits() -> Seq<char> {
    seq!['0', '1', '2', '3', '4', '5', '6', '7', '8', '9', 'a', 'b', 'c', 'd', 'e', 'f']
}

/// The digit whose value is `d`.
pub open spec fn digit(d: nat) -> char {
    digits()[d as int]
}

/// The bytes of `b` in hexadecimal: two lowercase digits for each byte, the
/// high one first.
pub open spec fn hex(b: Seq<u8>) -> Seq<char>
    decreases b.len(),
{
    if b.len() == 0 {
        Seq::empty()
    } else {
        hex(b.drop_last()) + seq![digit((b.last() / 16) as nat), digit((b.last() % 16) as nat)]
    }
}

/// The number `n` in decimal, without leading zeros.
pub open spec fn decimal(n: nat) -> Seq<char>
    decreases n,
{
    if n < 10 {
        seq![digit(n)]
    } else {
        decimal(n / 10) + seq![digit(n % 10)]
    }
}

/// The text of an array with the elements `s`: `[`, the element count, `x`,
/// the element size, the size in bytes in round brackets, a colon, the bytes
/// in hexadecimal, and `]`.
pub open spec fn render<T: Element>(s: Seq<T>) -> Seq<char> {
    seq!['['] + decimal(s.len()) + seq!['x'] + decimal(T::width()) + seq![' ', '('] + decimal(
        s.len() * T::width(),
    ) + seq![')', ':', ' '] + hex(flatten(s)) + seq![']']
}

/// The digit whose value is `d`.
pub fn digit_char(d: u8) -> (c: char)
    requires
        d < 16,
    ensures
        c == digit(d as nat),
{
    match d {
        0 => '0',
        1 => '1',
        2 => '2',
        3 => '3',
        4 => '4',
        5 => '5',
        6 => '6',
        7 => '7',
        8 => '8',
        9 => '9',
        10 => 'a',
        11 => 'b',
        12 => 'c',
        13 => 'd',
        14 => 'e',
        _ => 'f',
    }
}

/// Appends `n` in decimal to `out`.
pub fn push_decimal(out: &mut String, n: usize)
    ensures
        final(out)@ == old(out)@ + decimal(n as nat),
    decreases n,
{
    if n >= 10 {
        push_decimal(out, n / 10);
    }
    out.push(digit_char((n % 10) as u8));
    assert(out@ =~= old(out)@ + decimal(n as nat));
}

/// Appends the bytes of `bytes` in hexadecimal to `out`.
pub fn push_hex(out: &mut String, bytes: &[u8])
    ensures
        final(out)@ == old(out)@ + hex(bytes@),
{
    let count: usize = bytes.len();
    let mut i: usize = 0;
    assert(bytes@.take(0) =~= Seq::<u8>::empty());
    assert(out@ =~= old(out)@ + hex(bytes@.take(0)));
    while i < count
        invariant
            i <= count == bytes@.len(),
            out@ == old(out)@ + hex(bytes@.take(i as int)),
        decreases count - i,
    {
        let byte: u8 = bytes[i];
        proof {
            assert(bytes@.take(i + 1).drop_last() =~= bytes@.take(i as int));
            assert(bytes@.take(i + 1).last() == byte);
        }
        out.push(digit_char(byte / 16));
        out.push(digit_char(byte % 16));
        assert(out@ =~= old(out)@ + hex(bytes@.take(i + 1)));
        i = i + 1;
    }
    assert(bytes@.take(count as int) =~= bytes@);
}

/// The bytes in hexadecimal: two lowercase digits for each byte.
pub fn to_hex_string(bytes: &[u8]) -> (text: String)
    ensures
        text@ == hex(bytes@),
{
    let mut text: String = String::new();
    push_hex(&mut text, bytes);
    assert(text@ =~= hex(bytes@));
    text
}

impl<T: Element> HeapArray<T> {
    /// The array as text, for example `[3x1 (3): 010203]`.
    pub fn to_string(&self) -> (text: String)
        ensures
            text@ == render(self@),
    {
        proof {
            T::lemma_width();
            lemma_flatten_len(self@);
        }
        let block: Vec<u8> = self.as_bytes();
        let mut text: String = String::new();
        text.push('[');
        push_decimal(&mut text, self.len());
        text.push('x');
        push_decimal(&mut text, T::size());
        text.push(' ');
        text.push('(');
        push_decimal(&mut text, block.len());
        text.push(')');
        text.push(':');
        text.push(' ');
        push_hex(&mut text, block.as_slice());
        text.push(']');
        assert(text@ =~= render(self@));
        text
    }
}

} // verus!
