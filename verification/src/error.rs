//! The two error types of the conversion entry points.

use vstd::prelude::*;
use vstd::std_specs::convert::FromSpecImpl;

verus! {

/// Why a strict conversion failed.
#[derive(Debug, Clone, Copy, PartialEq, Eq, Structural)]
pub enum ConvertError {
    /// One of the labels is not recognised, or the pair cannot be converted.
    UnknownConversion,
    /// The input is not valid in the source encoding, or holds text that the
    /// target encoding cannot represent.
    InvalidInput,
}

/// Why a lossy conversion failed. Malformed data never makes one fail.
#[derive(Debug, Clone, Copy, PartialEq, Eq, Structural)]
pub enum ConvertLossyError {
    /// One of the labels is not recognised, or the pair cannot be converted.
    UnknownConversion,
}

impl ConvertError {
    /// The sentence that describes this error.
    pub fn message(&self) -> (text: &'static str)
        ensures
            *self == ConvertError::UnknownConversion ==> text@
                == "invalid from_encoding or to_encoding"@,
            *self == ConvertError::InvalidInput ==> text@
                == "input contains invalid data for the given from_encoding"@,
    {
        match self {
            ConvertError::UnknownConversion => "invalid from_encoding or to_encoding",
            ConvertError::InvalidInput => "input contains invalid data for the given from_encoding",
        }
    }
}

impl ConvertLossyError {
    /// The sentence that describes this error.
    pub fn message(&self) -> (text: &'static str)
        ensures
            text@ == "invalid from_encoding or to_encoding"@,
    {
        match self {
            ConvertLossyError::UnknownConversion => "invalid from_encoding or to_encoding",
        }
    }
}

impl From<ConvertLossyError> for ConvertError {
    fn from(err: ConvertLossyError) -> (out: Self) {
        match err {
            ConvertLossyError::UnknownConversion => ConvertError::UnknownConversion,
        }
    }
}

impl FromSpecImpl<ConvertLossyError> for ConvertError {
    open spec fn obeys_from_spec() -> bool {
        true
    }

    open spec fn from_spec(err: ConvertLossyError) -> Self {
        ConvertError::UnknownConversion
    }
}

} // verus!
