//! The scalar types that a field can be written from and read into.

use vstd::prelude::*;
use crate::kind::DataType;
use crate::codec::{pow256, lemma_pow256_values};

verus! {

/// A scalar type with a fixed-width bit pattern and a kind that names it.
///
/// The bit pattern is the number that the value's bytes spell: the value
/// itself for an unsigned type, the two's complement for a signed one.
pub trait SkipType: Sized {
    /// The kind that a field must be declared with to hold this type.
    spec fn kind() -> DataType;

    /// The value's bit pattern, as a number below `256^width`.
    spec fn pattern(self) -> nat;

    /// The value with the given bit pattern.
    spec fn from_pattern(p: nat) -> Self;

    /// Every pattern fits the kind's width, and gives its value back.
    proof fn lemma_pattern(v: Self)
        ensures
            v.pattern() < pow256(Self::kind().spec_width()),
            Self::from_pattern(v.pattern()) == v,
    ;

    /// Every number that fits the kind's width is the pattern of the value
    /// it is read as.
    proof fn lemma_from_pattern(p: nat)
        requires
            p < pow256(Self::kind().spec_width()),
        ensures
            Self::from_pattern(p).pattern() == p,
    ;

    /// The kind that a field must be declared with to hold this type.
    fn data_type() -> (k: DataType)
        ensures
            k == Self::kind(),
    ;

    /// The value's bit pattern.
    fn to_bits(&self) -> (b: u64)
        ensures
            b as nat == self.pattern(),
    ;

    /// The value with the given bit pattern.
    fn from_bits(b: u64) -> (v: Self)
        requires
            (b as nat) < pow256(Self::kind().spec_width()),
        ensures
            v == Self::from_pattern(b as nat),
    ;
}

/// The bit pattern of an IEEE 754 single-precision number.
#[derive(Clone, Copy, Debug, PartialEq, Eq, Structural)]
pub struct Float32Bits(pub u32);

/// The bit pattern of an IEEE 754 double-precision number.
#[derive(Clone, Copy, Debug, PartialEq, Eq, Structural)]
pub struct Float64Bits(pub u64);

impl SkipType for i8 {
    open spec fn kind() -> DataType {
        DataType::Int8
    }

    open spec fn pattern(self) -> nat {
        if self >= 0 {
            self as nat
        } else {
            (self + 0x100) as nat
        }
    }

    open spec fn from_pattern(p: nat) -> Self {
        if p < 0x80 {
            p as i8
        } else {
            (p - 0x100) as i8
        }
    }

    proof fn lemma_pattern(v: Self) {
        lemma_pow256_values();
    }

    proof fn lemma_from_pattern(p: nat) {
        lemma_pow256_values();
    }

    fn data_type() -> (k: DataType) {
        DataType::Int8
    }

    fn to_bits(&self) -> (b: u64) {
        if *self >= 0 {
            *self as u64
        } else {
            (*self as i128 + 0x100) as u64
        }
    }

    fn from_bits(b: u64) -> (v: Self) {
        proof {
            lemma_pow256_values();
        }
        if b < 0x80 {
            b as i8
        } else {
            (b as i128 - 0x100) as i8
        }
    }
}

impl SkipType for u8 {
    open spec fn kind() -> DataType {
        DataType::UInt8
    }

    open spec fn pattern(self) -> nat {
        self as nat
    }

    open spec fn from_pattern(p: nat) -> Self {
        p as u8
    }

    proof fn lemma_pattern(v: Self) {
        lemma_pow256_values();
    }

    proof fn lemma_from_pattern(p: nat) {
        lemma_pow256_values();
    }

    fn data_type() -> (k: DataType) {
        DataType::UInt8
    }

    fn to_bits(&self) -> (b: u64) {
        *self as u64
    }

    fn from_bits(b: u64) -> (v: Self) {
        proof {
            lemma_pow256_values();
        }
        b as u8
    }
}

impl SkipType for i16 {
    open spec fn kind() -> DataType {
        DataType::Int16
    }

    open spec fn pattern(self) -> nat {
        if self >= 0 {
            self as nat
        } else {
            (self + 0x10000) as nat
        }
    }

    open spec fn from_pattern(p: nat) -> Self {
        if p < 0x8000 {
            p as i16
        } else {
            (p - 0x10000) as i16
        }
    }

    proof fn lemma_pattern(v: Self) {
        lemma_pow256_values();
    }

    proof fn lemma_from_pattern(p: nat) {
        lemma_pow256_values();
    }

    fn data_type() -> (k: DataType) {
        DataType::Int16
    }

    fn to_bits(&self) -> (b: u64) {
        if *self >= 0 {
            *self as u64
        } else {
            (*self as i128 + 0x10000) as u64
        }
    }

    fn from_bits(b: u64) -> (v: Self) {
        proof {
            lemma_pow256_values();
        }
        if b < 0x8000 {
            b as i16
        } else {
            (b as i128 - 0x10000) as i16
        }
    }
}

impl SkipType for u16 {
    open spec fn kind() -> DataType {
        DataType::UInt16
    }

    open spec fn pattern(self) -> nat {
        self as nat
    }

    open spec fn from_pattern(p: nat) -> Self {
        p as u16
    }

    proof fn lemma_pattern(v: Self) {
        lemma_pow256_values();
    }

    proof fn lemma_from_pattern(p: nat) {
        lemma_pow256_values();
    }

    fn data_type() -> (k: DataType) {
        DataType::UInt16
    }

    fn to_bits(&self) -> (b: u64) {
        *self as u64
    }

    fn from_bits(b: u64) -> (v: Self) {
        proof {
            lemma_pow256_values();
        }
        b as u16
    }
}

impl SkipType for i32 {
    open spec fn kind() -> DataType {
        DataType::Int32
    }

    open spec fn pattern(self) -> nat {
        if self >= 0 {
            self as nat
        } else {
            (self + 0x100000000) as nat
        }
    }

    open spec fn from_pattern(p: nat) -> Self {
        if p < 0x80000000 {
            p as i32
        } else {
            (p - 0x100000000) as i32
        }
    }

    proof fn lemma_pattern(v: Self) {
        lemma_pow256_values();
    }

    proof fn lemma_from_pattern(p: nat) {
        lemma_pow256_values();
    }

    fn data_type() -> (k: DataType) {
        DataType::Int32
    }

    fn to_bits(&self) -> (b: u64) {
        if *self >= 0 {
            *self as u64
        } else {
            (*self as i128 + 0x100000000) as u64
        }
    }

    fn from_bits(b: u64) -> (v: Self) {
        proof {
            lemma_pow256_values();
        }
        if b < 0x80000000 {
            b as i32
        } else {
            (b as i128 - 0x100000000) as i32
        }
    }
}

impl SkipType for u32 {
    open spec fn kind() -> DataType {
        DataType::UInt32
    }

    open spec fn pattern(self) -> nat {
        self as nat
    }

    open spec fn from_pattern(p: nat) -> Self {
        p as u32
    }

    proof fn lemma_pattern(v: Self) {
        lemma_pow256_values();
    }

    proof fn lemma_from_pattern(p: nat) {
        lemma_pow256_values();
    }

    fn data_type() -> (k: DataType) {
        DataType::UInt32
    }

    fn to_bits(&self) -> (b: u64) {
        *self as u64
    }

    fn from_bits(b: u64) -> (v: Self) {
        proof {
            lemma_pow256_values();
        }
        b as u32
    }
}

impl SkipType for i64 {
    open spec fn kind() -> DataType {
        DataType::Int64
    }

    open spec fn pattern(self) -> nat {
        if self >= 0 {
            self as nat
        } else {
            (self + 0x10000000000000000) as nat
        }
    }

    open spec fn from_pattern(p: nat) -> Self {
        if p < 0x8000000000000000 {
            p as i64
        } else {
            (p - 0x10000000000000000) as i64
        }
    }

    proof fn lemma_pattern(v: Self) {
        lemma_pow256_values();
    }

    proof fn lemma_from_pattern(p: nat) {
        lemma_pow256_values();
    }

    fn data_type() -> (k: DataType) {
        DataType::Int64
    }

    fn to_bits(&self) -> (b: u64) {
        if *self >= 0 {
            *self as u64
        } else {
            (*self as i128 + 0x10000000000000000) as u64
        }
    }

    fn from_bits(b: u64) -> (v: Self) {
        proof {
            lemma_pow256_values();
        }
        if b < 0x8000000000000000 {
            b as i64
        } else {
            (b as i128 - 0x10000000000000000) as i64
        }
    }
}

impl SkipType for u64 {
    open spec fn kind() -> DataType {
        DataType::UInt64
    }

    open spec fn pattern(self) -> nat {
        self as nat
    }

    open spec fn from_pattern(p: nat) -> Self {
        p as u64
    }

    proof fn lemma_pattern(v: Self) {
        lemma_pow256_values();
    }

    proof fn lemma_from_pattern(p: nat) {
        lemma_pow256_values();
    }

    fn data_type() -> (k: DataType) {
        DataType::UInt64
    }

    fn to_bits(&self) -> (b: u64) {
        *self as u64
    }

    fn from_bits(b: u64) -> (v: Self) {
        proof {
            lemma_pow256_values();
        }
        b as u64
    }
}

impl SkipType for Float32Bits {
    open spec fn kind() -> DataType {
        DataType::Float32
    }

    open spec fn pattern(self) -> nat {
        self.0 as nat
    }

    open spec fn from_pattern(p: nat) -> Self {
        Float32Bits(p as u32)
    }

    proof fn lemma_pattern(v: Self) {
        lemma_pow256_values();
    }

    proof fn lemma_from_pattern(p: nat) {
        lemma_pow256_values();
    }

    fn data_type() -> (k: DataType) {
        DataType::Float32
    }

    fn to_bits(&self) -> (b: u64) {
        self.0 as u64
    }

    fn from_bits(b: u64) -> (v: Self) {
        proof {
            lemma_pow256_values();
        }
        Float32Bits(b as u32)
    }
}

impl SkipType for Float64Bits {
    open spec fn kind() -> DataType {
        DataType::Float64
    }

    open spec fn pattern(self) -> nat {
        self.0 as nat
    }

    open spec fn from_pattern(p: nat) -> Self {
        Float64Bits(p as u64)
    }

    proof fn lemma_pattern(v: Self) {
        lemma_pow256_values();
    }

    proof fn lemma_from_pattern(p: nat) {
        lemma_pow256_values();
    }

    fn data_type() -> (k: DataType) {
        DataType::Float64
    }

    fn to_bits(&self) -> (b: u64) {
        self.0 as u64
    }

    fn from_bits(b: u64) -> (v: Self) {
        proof {
            lemma_pow256_values();
        }
        Float64Bits(b as u64)
    }
}

} // verus!
