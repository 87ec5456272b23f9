//! Errors of the parameter operations.

use vstd::prelude::*;

verus! {

/// Why a parameter operation produced no value.
#[derive(Clone, Copy, Debug, PartialEq, Eq)]
pub enum SrsError {
    /// The requested degree bound exceeds the maximum degree of the
    /// universal parameters.
    SizeOutOfRange,
    /// An encoded parameter set has the wrong length, or one of its group
    /// elements is not a valid point of the prime-order subgroup.
    MalformedParameter,
}

impl SrsError {
    /// A short description of the error.
    pub fn message(&self) -> (msg: &'static str)
        ensures
            msg@ == (match *self {
                SrsError::SizeOutOfRange => "supported size exceeds the maximum degree"@,
                SrsError::MalformedParameter => "malformed parameter encoding"@,
            }),
    {
        match self {
            SrsError::SizeOutOfRange => "supported size exceeds the maximum degree",
            SrsError::MalformedParameter => "malformed parameter encoding",
        }
    }
}

} // verus!
