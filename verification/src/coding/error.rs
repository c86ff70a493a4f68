//! What can go wrong when a value is written or read.

use vstd::prelude::*;

verus! {

/// Why a byte string could not be read as a value.
#[derive(Clone, Copy, Debug, PartialEq, Eq, Structural)]
pub enum DecodeError {
    /// The bytes stop before the value does; more input may still complete it.
    UnexpectedEnd,
    /// A setup frame or message begins with a type other than the expected one.
    InvalidMessage(u64),
    /// A parameter is not acceptable where it stands, or is too long.
    InvalidParameter,
    /// A parameter kind that may occur once occurs twice.
    DuplicateParameter,
    /// A field holds a value outside its range.
    InvalidValue,
    /// A field that the filter type calls for is absent.
    MissingField,
    /// An integer does not fit the machine type that receives it.
    BoundsExceeded,
}

/// Why a value has no wire form.
#[derive(Clone, Copy, Debug, PartialEq, Eq, Structural)]
pub enum EncodeError {
    /// An integer is too large for a variable-length integer.
    BoundsExceeded,
    /// A field that the filter type calls for is absent.
    MissingField,
    /// A stored parameter value is not what its kind requires.
    InvalidValue,
}

} // verus!
