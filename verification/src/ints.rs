//! The machine integers as elements.
//!
//! An unsigned integer is stored as its value, lowest byte first. A signed
//! integer is stored in two's complement: a negative value `x` of `n` bytes
//! is stored as the unsigned number `x + radix(n)`.

use vstd::prelude::*;
use crate::bytes::{le_bytes, le_value};
use crate::bytes::{
    lemma_le_bytes_len, lemma_le_bytes_of_value, lemma_le_value_bound, lemma_le_value_of_bytes,
    lemma_radix_values,
};
use crate::element::Element;

verus! {

impl Element for u8 {
    open spec fn width() -> nat {
        1
    }

    open spec fn bytes_of(self) -> Seq<u8> {
        le_bytes(self as nat, 1)
    }

    open spec fn of_bytes(b: Seq<u8>) -> Self {
        le_value(b) as u8
    }

    proof fn lemma_width() {
        broadcast use vstd::layout::layout_of_primitives;

    }

    proof fn lemma_bytes_of(self) {
        lemma_radix_values();
        lemma_le_bytes_len(self as nat, 1);
        lemma_le_value_of_bytes(self as nat, 1);
    }

    proof fn lemma_of_bytes(b: Seq<u8>) {
        lemma_radix_values();
        lemma_le_value_bound(b);
        lemma_le_bytes_of_value(b);
    }

    fn size() -> (n: usize) {
        1
    }

    fn to_bits(self) -> (v: u64) {
        proof {
            lemma_radix_values();
        }
        self as u64
    }

    fn from_bits(v: u64) -> (x: Self) {
        proof {
            lemma_radix_values();
            lemma_le_value_of_bytes(v as nat, 1);
        }
        v as u8
    }
}

impl Element for i8 {
    open spec fn width() -> nat {
        1
    }

    open spec fn bytes_of(self) -> Seq<u8> {
        if self >= 0 {
            le_bytes(self as nat, 1)
        } else {
            le_bytes((self + 0x100) as nat, 1)
        }
    }

    open spec fn of_bytes(b: Seq<u8>) -> Self {
        if le_value(b) < 0x80 {
            le_value(b) as i8
        } else {
            (le_value(b) - 0x100) as i8
        }
    }

    proof fn lemma_width() {
        broadcast use vstd::layout::layout_of_primitives;

    }

    proof fn lemma_bytes_of(self) {
        lemma_radix_values();
        if self >= 0 {
            lemma_le_bytes_len(self as nat, 1);
            lemma_le_value_of_bytes(self as nat, 1);
        } else {
            lemma_le_bytes_len((self + 0x100) as nat, 1);
            lemma_le_value_of_bytes((self + 0x100) as nat, 1);
        }
    }

    proof fn lemma_of_bytes(b: Seq<u8>) {
        lemma_radix_values();
        lemma_le_value_bound(b);
        lemma_le_bytes_of_value(b);
    }

    fn size() -> (n: usize) {
        1
    }

    fn to_bits(self) -> (v: u64) {
        proof {
            lemma_radix_values();
        }
        if self >= 0 {
            self as u64
        } else {
            (self as i64 + 0x100) as u64
        }
    }

    fn from_bits(v: u64) -> (x: Self) {
        proof {
            lemma_radix_values();
            lemma_le_value_of_bytes(v as nat, 1);
        }
        if v < 0x80 {
            v as i8
        } else {
            (v as i64 - 0x100) as i8
        }
    }
}

impl Element for u16 {
    open spec fn width() -> nat {
        2
    }

    open spec fn bytes_of(self) -> Seq<u8> {
        le_bytes(self as nat, 2)
    }

    open spec fn of_bytes(b: Seq<u8>) -> Self {
        le_value(b) as u16
    }

    proof fn lemma_width() {
        broadcast use vstd::layout::layout_of_primitives;

    }

    proof fn lemma_bytes_of(self) {
        lemma_radix_values();
        lemma_le_bytes_len(self as nat, 2);
        lemma_le_value_of_bytes(self as nat, 2);
    }

    proof fn lemma_of_bytes(b: Seq<u8>) {
        lemma_radix_values();
        lemma_le_value_bound(b);
        lemma_le_bytes_of_value(b);
    }

    fn size() -> (n: usize) {
        2
    }

    fn to_bits(self) -> (v: u64) {
        proof {
            lemma_radix_values();
        }
        self as u64
    }

    fn from_bits(v: u64) -> (x: Self) {
        proof {
            lemma_radix_values();
            lemma_le_value_of_bytes(v as nat, 2);
        }
        v as u16
    }
}

impl Element for i16 {
    open spec fn width() -> nat {
        2
    }

    open spec fn bytes_of(self) -> Seq<u8> {
        if self >= 0 {
            le_bytes(self as nat, 2)
        } else {
            le_bytes((self + 0x1_0000) as nat, 2)
        }
    }

    open spec fn of_bytes(b: Seq<u8>) -> Self {
        if le_value(b) < 0x8000 {
            le_value(b) as i16
        } else {
            (le_value(b) - 0x1_0000) as i16
        }
    }

    proof fn lemma_width() {
        broadcast use vstd::layout::layout_of_primitives;

    }

    proof fn lemma_bytes_of(self) {
        lemma_radix_values();
        if self >= 0 {
            lemma_le_bytes_len(self as nat, 2);
            lemma_le_value_of_bytes(self as nat, 2);
        } else {
            lemma_le_bytes_len((self + 0x1_0000) as nat, 2);
            lemma_le_value_of_bytes((self + 0x1_0000) as nat, 2);
        }
    }

    proof fn lemma_of_bytes(b: Seq<u8>) {
        lemma_radix_values();
        lemma_le_value_bound(b);
        lemma_le_bytes_of_value(b);
    }

    fn size() -> (n: usize) {
        2
    }

    fn to_bits(self) -> (v: u64) {
        proof {
            lemma_radix_values();
        }
        if self >= 0 {
            self as u64
        } else {
            (self as i64 + 0x1_0000) as u64
        }
    }

    fn from_bits(v: u64) -> (x: Self) {
        proof {
            lemma_radix_values();
            lemma_le_value_of_bytes(v as nat, 2);
        }
        if v < 0x8000 {
            v as i16
        } else {
            (v as i64 - 0x1_0000) as i16
        }
    }
}

impl Element for u32 {
    open spec fn width() -> nat {
        4
    }

    open spec fn bytes_of(self) -> Seq<u8> {
        le_bytes(self as nat, 4)
    }

    open spec fn of_bytes(b: Seq<u8>) -> Self {
        le_value(b) as u32
    }

    proof fn lemma_width() {
        broadcast use vstd::layout::layout_of_primitives;

    }

    proof fn lemma_bytes_of(self) {
        lemma_radix_values();
        lemma_le_bytes_len(self as nat, 4);
        lemma_le_value_of_bytes(self as nat, 4);
    }

    proof fn lemma_of_bytes(b: Seq<u8>) {
        lemma_radix_values();
        lemma_le_value_bound(b);
        lemma_le_bytes_of_value(b);
    }

    fn size() -> (n: usize) {
        4
    }

    fn to_bits(self) -> (v: u64) {
        proof {
            lemma_radix_values();
        }
        self as u64
    }

    fn from_bits(v: u64) -> (x: Self) {
        proof {
            lemma_radix_values();
            lemma_le_value_of_bytes(v as nat, 4);
        }
        v as u32
    }
}

impl Element for i32 {
    open spec fn width() -> nat {
        4
    }

    open spec fn bytes_of(self) -> Seq<u8> {
        if self >= 0 {
            le_bytes(self as nat, 4)
        } else {
            le_bytes((self + 0x1_0000_0000) as nat, 4)
        }
    }

    open spec fn of_bytes(b: Seq<u8>) -> Self {
        if le_value(b) < 0x8000_0000 {
            le_value(b) as i32
        } else {
            (le_value(b) - 0x1_0000_0000) as i32
        }
    }

    proof fn lemma_width() {
        broadcast use vstd::layout::layout_of_primitives;

    }

    proof fn lemma_bytes_of(self) {
        lemma_radix_values();
        if self >= 0 {
            lemma_le_bytes_len(self as nat, 4);
            lemma_le_value_of_bytes(self as nat, 4);
        } else {
            lemma_le_bytes_len((self + 0x1_0000_0000) as nat, 4);
            lemma_le_value_of_bytes((self + 0x1_0000_0000) as nat, 4);
        }
    }

    proof fn lemma_of_bytes(b: Seq<u8>) {
        lemma_radix_values();
        lemma_le_value_bound(b);
        lemma_le_bytes_of_value(b);
    }

    fn size() -> (n: usize) {
        4
    }

    fn to_bits(self) -> (v: u64) {
        proof {
            lemma_radix_values();
        }
        if self >= 0 {
            self as u64
        } else {
            (self as i64 + 0x1_0000_0000) as u64
        }
    }

    fn from_bits(v: u64) -> (x: Self) {
        proof {
            lemma_radix_values();
            lemma_le_value_of_bytes(v as nat, 4);
        }
        if v < 0x8000_0000 {
            v as i32
        } else {
            (v as i64 - 0x1_0000_0000) as i32
        }
    }
}

impl Element for u64 {
    open spec fn width() -> nat {
        8
    }

    open spec fn bytes_of(self) -> Seq<u8> {
        le_bytes(self as nat, 8)
    }

    open spec fn of_bytes(b: Seq<u8>) -> Self {
        le_value(b) as u64
    }

    proof fn lemma_width() {
        broadcast use vstd::layout::layout_of_primitives;

    }

    proof fn lemma_bytes_of(self) {
        lemma_radix_values();
        lemma_le_bytes_len(self as nat, 8);
        lemma_le_value_of_bytes(self as nat, 8);
    }

    proof fn lemma_of_bytes(b: Seq<u8>) {
        lemma_radix_values();
        lemma_le_value_bound(b);
        lemma_le_bytes_of_value(b);
    }

    fn size() -> (n: usize) {
        8
    }

    fn to_bits(self) -> (v: u64) {
        proof {
            lemma_radix_values();
        }
        self as u64
    }

    fn from_bits(v: u64) -> (x: Self) {
        proof {
            lemma_radix_values();
            lemma_le_value_of_bytes(v as nat, 8);
        }
        v as u64
    }
}

impl Element for i64 {
    open spec fn width() -> nat {
        8
    }

    open spec fn bytes_of(self) -> Seq<u8> {
        if self >= 0 {
            le_bytes(self as nat, 8)
        } else {
            le_bytes((self + 0x1_0000_0000_0000_0000) as nat, 8)
        }
    }

    open spec fn of_bytes(b: Seq<u8>) -> Self {
        if le_value(b) < 0x8000_0000_0000_0000 {
            le_value(b) as i64
        } else {
            (le_value(b) - 0x1_0000_0000_0000_0000) as i64
        }
    }

    proof fn lemma_width() {
        broadcast use vstd::layout::layout_of_primitives;

    }

    proof fn lemma_bytes_of(self) {
        lemma_radix_values();
        if self >= 0 {
            lemma_le_bytes_len(self as nat, 8);
            lemma_le_value_of_bytes(self as nat, 8);
        } else {
            lemma_le_bytes_len((self + 0x1_0000_0000_0000_0000) as nat, 8);
            lemma_le_value_of_bytes((self + 0x1_0000_0000_0000_0000) as nat, 8);
        }
    }

    proof fn lemma_of_bytes(b: Seq<u8>) {
        lemma_radix_values();
        lemma_le_value_bound(b);
        lemma_le_bytes_of_value(b);
    }

    fn size() -> (n: usize) {
        8
    }

    fn to_bits(self) -> (v: u64) {
        proof {
            lemma_radix_values();
        }
        if self >= 0 {
            self as u64
        } else {
            (self as i128 + 0x1_0000_0000_0000_0000) as u64
        }
    }

    fn from_bits(v: u64) -> (x: Self) {
        proof {
            lemma_radix_values();
            lemma_le_value_of_bytes(v as nat, 8);
        }
        if v < 0x8000_0000_0000_0000 {
            v as i64
        } else {
            (v as i128 - 0x1_0000_0000_0000_0000) as i64
        }
    }
}

} // verus!
