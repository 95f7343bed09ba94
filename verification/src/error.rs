//! What can go wrong while a statement is generated.

use crate::model::ColumnType;
use vstd::prelude::*;

verus! {

/// The kinds of failure.
#[derive(Debug, Clone, Copy, PartialEq, Eq, Structural)]
pub enum ErrorKind {
    /// A random value was asked for a type that has none defined.
    UnsupportedRandomType,
    /// A unique value was asked for a type that has no unique values defined.
    UnsupportedUniqueType,
    /// A decimal type gives one of precision and scale without the other.
    InvalidDecimalSpec,
    /// A character type is too short to hold the digits of the row index.
    LengthUnderflow,
    /// A value was asked for a column that the database fills in.
    GeneratedColumnMisuse,
    /// The sink that takes the finished text refused it.
    OutputWriteFailure,
}

/// A failure, with the column that it came from.
#[derive(Debug)]
pub struct GenerateError {
    pub kind: ErrorKind,
    /// The name of the offending column.
    pub column: String,
    /// The type of the offending column.
    pub typ: ColumnType,
}

} // verus!
