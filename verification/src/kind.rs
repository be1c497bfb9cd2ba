//! The scalar kinds a field can hold, and their byte widths.

use vstd::prelude::*;

verus! {

/// The closed set of scalar kinds.
#[derive(Clone, Copy, Debug, PartialEq, Eq, Structural)]
pub enum DataType {
    Int8,
    UInt8,
    Int16,
    UInt16,
    Int32,
    UInt32,
    Int64,
    UInt64,
    Float32,
    Float64,
}

impl DataType {
    /// The number of bytes one element of this kind occupies.
    pub open spec fn spec_width(self) -> nat {
        match self {
            DataType::Int8 | DataType::UInt8 => 1,
            DataType::Int16 | DataType::UInt16 => 2,
            DataType::Int32 | DataType::UInt32 | DataType::Float32 => 4,
            DataType::Int64 | DataType::UInt64 | DataType::Float64 => 8,
        }
    }

    /// The number of bytes one element of this kind occupies.
    pub fn width(self) -> (w: usize)
        ensures
            w == self.spec_width(),
            1 <= w <= 8,
    {
        match self {
            DataType::Int8 | DataType::UInt8 => 1,
            DataType::Int16 | DataType::UInt16 => 2,
            DataType::Int32 | DataType::UInt32 | DataType::Float32 => 4,
            DataType::Int64 | DataType::UInt64 | DataType::Float64 => 8,
        }
    }
}

} // verus!
