//! The two sets of bits that a tracer and the kernel exchange.

use vstd::prelude::*;

verus! {

/// The stops and events that a tracer asks for, or the cause of one.
#[derive(Clone, Copy, Debug, PartialEq, Eq, Structural)]
pub struct PtraceFlags {
    pub bits: u64,
}

impl PtraceFlags {
    /// Every bit of `wanted` is set in `self`.
    pub open spec fn includes(self, wanted: PtraceFlags) -> bool {
        self.bits & wanted.bits == wanted.bits
    }

    /// Tells whether every bit of `wanted` is set.
    pub fn contains(self, wanted: PtraceFlags) -> (result: bool)
        ensures
            result == self.includes(wanted),
    {
        self.bits & wanted.bits == wanted.bits
    }
}

/// What a file is ready for, as reported to the "event:" scheme.
pub type EventFlags = usize;

/// The file is ready for nothing.
pub const EVENT_NONE: EventFlags = 0;

/// The file can be read without blocking.
pub const EVENT_READ: EventFlags = 1;

} // verus!
