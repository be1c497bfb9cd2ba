//! The ways an operation on a schema or a record can fail.

use vstd::prelude::*;

verus! {

/// Why an operation was refused. Every refusal leaves its target unchanged.
#[derive(Clone, Copy, Debug, PartialEq, Eq, Structural)]
pub enum SkipError {
    /// A field of that name is already declared.
    DuplicateFieldName,
    /// A field was declared with no elements.
    InvalidFieldCount,
    /// No field of that name is declared.
    FieldNotFound,
    /// The field is declared with another kind than the one asked for.
    TypeMismatch,
    /// The bytes to import are not as many as the schema lays out.
    LengthMismatch,
}

impl SkipError {
    /// A short description of the error.
    pub fn message(&self) -> (s: &'static str)
        ensures
            s@ == match *self {
                SkipError::DuplicateFieldName => "Duplicate field name"@,
                SkipError::InvalidFieldCount => "Invalid field count"@,
                SkipError::FieldNotFound => "Field not found"@,
                SkipError::TypeMismatch => "Type mismatch"@,
                SkipError::LengthMismatch => "Length mismatch"@,
            },
    {
        match self {
            SkipError::DuplicateFieldName => "Duplicate field name",
            SkipError::InvalidFieldCount => "Invalid field count",
            SkipError::FieldNotFound => "Field not found",
            SkipError::TypeMismatch => "Type mismatch",
            SkipError::LengthMismatch => "Length mismatch",
        }
    }
}

} // verus!
