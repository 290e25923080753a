//! The failures that a stream or a source can report.

use vstd::prelude::*;

verus! {

/// Why a read or a seek did not complete.
#[derive(Clone, Copy, Debug, PartialEq, Eq, Structural)]
pub enum StreamError {
    /// The source was exhausted before the requested bytes were delivered.
    EndOfStream,
    /// A single read attempt was cut short by a transient condition.
    Interrupted,
    /// The source cannot perform the requested operation (it is not seekable).
    Unsupported,
    /// The request names a position before the start of the source or
    /// outside the range of offsets.
    InvalidInput,
    /// Any other failure of the source, with the code the source gave it.
    Other(i32),
}

impl StreamError {
    /// A short description of the failure.
    pub fn message(&self) -> (s: &'static str)
        ensures
            *self == StreamError::EndOfStream ==> s@ == "end of stream"@,
            *self == StreamError::Interrupted ==> s@ == "interrupted"@,
            *self == StreamError::Unsupported ==> s@ == "operation not supported"@,
            *self == StreamError::InvalidInput ==> s@ == "invalid seek request"@,
            (*self matches StreamError::Other(_)) ==> s@ == "source failure"@,
    {
        match self {
            StreamError::EndOfStream => "end of stream",
            StreamError::Interrupted => "interrupted",
            StreamError::Unsupported => "operation not supported",
            StreamError::InvalidInput => "invalid seek request",
            StreamError::Other(_) => "source failure",
        }
    }
}

} // verus!
