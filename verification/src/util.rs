//! Small helpers.

use vstd::prelude::*;

verus! {

/// Lets go of an error.
pub trait ResultExt<T, E> {
    /// The value of a success; a failure leaves nothing. `message` says
    /// what was being done, for whoever reports the failure.
    fn ok_or_warn(self, message: &str) -> Option<T>;
}

impl<T, E> ResultExt<T, E> for Result<T, E> {
    fn ok_or_warn(self, message: &str) -> (r: Option<T>)
        ensures
            r == match self {
                Ok(value) => Some(value),
                Err(_) => None,
            },
    {
        match self {
            Ok(value) => Some(value),
            Err(_) => None,
        }
    }
}

} // verus!
