//! Events of a traced process, and the actions that the kernel has to take.

use crate::flags::{EventFlags, PtraceFlags};
use vstd::prelude::*;

verus! {

/// The number of a process.
pub type ContextId = usize;

/// Something that happened in a traced process, as its tracer reads it.
#[derive(Clone, Copy, Debug, PartialEq, Eq, Structural)]
pub struct PtraceEvent {
    pub cause: PtraceFlags,
    pub a: usize,
    pub b: usize,
    pub c: usize,
    pub d: usize,
    pub e: usize,
    pub f: usize,
}

/// The event that says nothing but its cause.
pub open spec fn bare_event(cause: PtraceFlags) -> PtraceEvent {
    PtraceEvent { cause, a: 0, b: 0, c: 0, d: 0, e: 0, f: 0 }
}

/// Makes an event that says nothing but its cause.
pub fn ptrace_event(cause: PtraceFlags) -> (event: PtraceEvent)
    ensures
        event == bare_event(cause),
{
    PtraceEvent { cause, a: 0, b: 0, c: 0, d: 0, e: 0, f: 0 }
}

/// Something that the kernel has to do for a change of the sessions to take
/// effect.
#[derive(Clone, Copy, Debug, PartialEq, Eq, Structural)]
pub enum Action {
    /// Tell the "event:" scheme that the tracer's file is ready.
    Trigger { file_id: usize, flags: EventFlags },
    /// Wake whoever waits for this process to stop.
    NotifyTracer { pid: ContextId },
    /// Wake this process where it waits for its tracer.
    NotifyTracee { pid: ContextId },
}

/// Adds a notification to the "event:" scheme to what the kernel has to do.
pub fn proc_trigger_event(actions: &mut Vec<Action>, file_id: usize, flags: EventFlags)
    ensures
        final(actions)@ == old(actions)@.push(Action::Trigger { file_id, flags }),
{
    actions.push(Action::Trigger { file_id, flags });
}

} // verus!
