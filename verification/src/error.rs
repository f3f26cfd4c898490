//! Failures that are reported to the caller of a system call.

use vstd::prelude::*;

verus! {

/// No such process.
pub const ESRCH: i32 = 3;

/// Bad address.
pub const EFAULT: i32 = 14;

/// The failure of a system call.
#[derive(Clone, Copy, Debug, PartialEq, Eq, Structural)]
pub struct Error {
    pub errno: i32,
}

impl Error {
    /// The failure with this number.
    pub fn new(errno: i32) -> (error: Error)
        ensures
            error.errno == errno,
    {
        Error { errno }
    }
}

} // verus!
