//! The error that callers of the metadata store see.

use vstd::prelude::*;

verus! {

/// An error with its message.
#[derive(Debug, PartialEq, Eq)]
pub struct CubeError {
    pub message: String,
}

impl CubeError {
    /// An error inside the store.
    pub fn internal(message: String) -> (e: CubeError)
        ensures
            e.message == message,
    {
        CubeError { message }
    }
}

} // verus!
