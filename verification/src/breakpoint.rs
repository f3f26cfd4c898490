//! Breakpoints: how a tracer lets a process run, and how the two wait for each
//! other.
//!
//! Waiting is split into steps. A step looks at the sessions and says whether to
//! sleep; the kernel sleeps, and reports whether the sleep ended in a wake-up.

use crate::error::{Error, ESRCH};
use crate::event::{bare_event, proc_trigger_event, ptrace_event, Action, ContextId, PtraceEvent};
use crate::flags::{PtraceFlags, EVENT_READ};
use crate::session::{
    arrival_actions, listening, Breakpoint, SessionMap, SessionState, Sessions,
};
use vstd::prelude::*;

verus! {

/// The sessions after the breakpoint of `pid` was replaced, if the process is
/// traced.
pub open spec fn after_breakpoint(
    sessions: Sessions,
    pid: ContextId,
    breakpoint: Option<Breakpoint>,
) -> Sessions {
    if sessions.contains_key(pid) {
        sessions.insert(pid, sessions[pid].with_breakpoint(breakpoint))
    } else {
        sessions
    }
}

/// Lets the process run on. Its breakpoint is removed, so that one that was not
/// reached yet but is obsolete does not stop it.
pub fn cont(sessions: &mut SessionMap, pid: ContextId) -> (actions: Vec<Action>)
    ensures
        final(sessions)@ == after_breakpoint(old(sessions)@, pid, None),
        actions@ == (if old(sessions)@.contains_key(pid) {
            seq![Action::NotifyTracee { pid }]
        } else {
            Seq::empty()
        }),
{
    let mut actions: Vec<Action> = Vec::new();
    match sessions.take(pid) {
        Some(session) => {
            let mut session = session;
            session.breakpoint = None;
            sessions.put(pid, session);
            actions.push(Action::NotifyTracee { pid });
        },
        None => {},
    }
    actions
}

/// The breakpoint that asks for `flags` and was not reached yet.
pub open spec fn pending(flags: PtraceFlags) -> Option<Breakpoint> {
    Some(Breakpoint { reached: false, flags })
}

/// Gives a traced process a new breakpoint, and lets it run on if
/// `should_continue` says so.
pub fn set_breakpoint(
    sessions: &mut SessionMap,
    pid: ContextId,
    flags: PtraceFlags,
    should_continue: bool,
) -> (actions: Vec<Action>)
    requires
        old(sessions)@.contains_key(pid),
    ensures
        final(sessions)@ == after_breakpoint(old(sessions)@, pid, pending(flags)),
        actions@ == (if should_continue {
            seq![Action::NotifyTracee { pid }]
        } else {
            Seq::empty()
        }),
{
    match sessions.take(pid) {
        Some(session) => {
            let mut session = session;
            session.breakpoint = Some(Breakpoint { reached: false, flags });
            sessions.put(pid, session);
        },
        None => {},
    }
    let mut actions: Vec<Action> = Vec::new();
    if should_continue {
        actions.push(Action::NotifyTracee { pid });
    }
    actions
}

/// Whether a process is still there.
#[derive(Clone, Copy, Debug, PartialEq, Eq, Structural)]
pub enum Status {
    Alive,
    Exited(usize),
}

/// The next step of a tracer that waits for a process to stop.
#[derive(Clone, Copy, Debug, PartialEq, Eq, Structural)]
pub enum WaitStep {
    /// The process is not traced: there is nothing to wait for, and the wait
    /// succeeds.
    NotTraced,
    /// Go to sleep until the tracer is notified.
    Sleep,
    /// Look at the sessions again.
    Retry,
    /// The wait is over: see whether the process is still there.
    Finish,
}

/// There is something that the tracer does not know of: a breakpoint that was
/// reached, or an unread event.
pub open spec fn has_news(session: SessionState) -> bool {
    ||| session.breakpoint matches Some(breakpoint) && breakpoint.reached
    ||| session.events.len() > 0
}

/// The step of a tracer that waits for `pid`, as these sessions call for it.
pub open spec fn wait_step(sessions: Sessions, pid: ContextId) -> WaitStep {
    if !sessions.contains_key(pid) {
        WaitStep::NotTraced
    } else if has_news(sessions[pid]) {
        WaitStep::Finish
    } else {
        WaitStep::Sleep
    }
}

/// Waits for the process to stop: looks at its session, and says whether to sleep
/// before looking again. The sessions have to stay as they are until the tracer
/// is asleep, or it may miss its notification.
pub fn wait(sessions: &SessionMap, pid: ContextId) -> (step: WaitStep)
    ensures
        step == wait_step(sessions@, pid),
{
    let session = match sessions.get(pid) {
        Some(session) => session,
        None => return WaitStep::NotTraced,
    };
    let reached = match session.breakpoint {
        Some(breakpoint) => breakpoint.reached,
        None => false,
    };
    if reached || session.events.len() != 0 {
        WaitStep::Finish
    } else {
        WaitStep::Sleep
    }
}

/// What a wait returns at once, if its step calls for that: a wait for a process
/// that is not traced succeeds, and there is no event to hand out.
pub open spec fn immediate_result(step: WaitStep) -> Option<Result<Option<PtraceEvent>, Error>> {
    if step is NotTraced {
        Some(Ok(None))
    } else {
        None
    }
}

/// What a wait returns at once with this step. `None` says that the wait goes on.
pub fn wait_returns(step: WaitStep) -> (result: Option<Result<Option<PtraceEvent>, Error>>)
    ensures
        result == immediate_result(step),
{
    match step {
        WaitStep::NotTraced => Some(Ok(None)),
        WaitStep::Sleep => None,
        WaitStep::Retry => None,
        WaitStep::Finish => None,
    }
}

/// The step of a tracer whose sleep has ended: it is done if it was notified, and
/// looks again if it was interrupted.
pub fn wait_woken(notified: bool) -> (step: WaitStep)
    ensures
        step == (if notified { WaitStep::Finish } else { WaitStep::Retry }),
{
    if notified {
        WaitStep::Finish
    } else {
        WaitStep::Retry
    }
}

/// The oldest unread event of `pid`, if there is one.
pub open spec fn oldest_event(sessions: Sessions, pid: ContextId) -> Option<PtraceEvent> {
    if sessions.contains_key(pid) && sessions[pid].events.len() > 0 {
        Some(sessions[pid].events[0])
    } else {
        None
    }
}

/// Ends a wait for `pid`, given what became of the process: `None` if there is no
/// process of that number. Returns a copy of the oldest unread event, which can
/// still be read with `recv_events`, or fails if the process is gone.
pub fn wait_finish(sessions: &SessionMap, pid: ContextId, status: Option<Status>) -> (result:
    Result<Option<PtraceEvent>, Error>)
    ensures
        result == (if status == Some(Status::Alive) {
            Ok(oldest_event(sessions@, pid))
        } else {
            Err(Error { errno: ESRCH })
        }),
{
    match status {
        Some(Status::Alive) => {},
        Some(Status::Exited(_)) => return Err(Error::new(ESRCH)),
        None => return Err(Error::new(ESRCH)),
    }
    match sessions.get(pid) {
        Some(session) => {
            if session.events.len() != 0 {
                Ok(Some(session.events[0]))
            } else {
                Ok(None)
            }
        },
        None => Ok(None),
    }
}

/// What a process does that stopped at a breakpoint.
#[derive(Debug)]
pub struct Stop {
    /// What has to be done before the process sleeps.
    pub actions: Vec<Action>,
    /// The stops and events that the breakpoint asked for.
    pub flags: PtraceFlags,
}

/// The event that a stop reports: the given one, or one that says nothing but the
/// cause.
pub open spec fn stop_event(match_flags: PtraceFlags, event: Option<PtraceEvent>) -> PtraceEvent {
    match event {
        Some(event) => event,
        None => bare_event(match_flags),
    }
}

/// A session whose process stopped with `event`.
pub open spec fn stopped(session: SessionState, event: PtraceEvent) -> SessionState {
    session.with_breakpoint(
        Some(Breakpoint { reached: true, flags: session.breakpoint->0.flags }),
    ).with_event(event)
}

/// The sessions after the current process came to a place where it stops if its
/// tracer asked for `match_flags`.
pub open spec fn after_callback(
    sessions: Sessions,
    current: Option<ContextId>,
    match_flags: PtraceFlags,
    event: Option<PtraceEvent>,
) -> Sessions {
    if listening(sessions, current, match_flags) {
        sessions.insert(
            current->0,
            stopped(sessions[current->0], stop_event(match_flags, event)),
        )
    } else {
        sessions
    }
}

/// Stops the current process if its tracer asked for everything in `match_flags`:
/// marks the breakpoint as reached, reports the stop as an event and has the
/// tracer woken. The process then has to sleep until it is notified, and the
/// sessions have to stay as they are until it is asleep. Returns `None` if the
/// process does not stop.
pub fn breakpoint_callback(
    sessions: &mut SessionMap,
    current: Option<ContextId>,
    match_flags: PtraceFlags,
    event: Option<PtraceEvent>,
) -> (stop: Option<Stop>)
    ensures
        stop is Some <==> listening(old(sessions)@, current, match_flags),
        stop matches Some(stop) ==> {
            let session = old(sessions)@[current->0];
            &&& stop.actions@ == arrival_actions(current->0, session)
            &&& session.breakpoint matches Some(breakpoint) && stop.flags == breakpoint.flags
        },
        final(sessions)@ == after_callback(old(sessions)@, current, match_flags, event),
{
    let pid = current?;
    let flags = sessions.get(pid)?.breakpoint?.flags;
    if !flags.contains(match_flags) {
        return None;
    }
    let mut session = sessions.take(pid)?;
    // In case no tracer is waiting, make sure the next one gets the memo.
    session.breakpoint = Some(Breakpoint { reached: true, flags });
    let event = match event {
        Some(event) => event,
        None => ptrace_event(match_flags),
    };
    let mut actions: Vec<Action> = Vec::new();
    session.add_event(event, &mut actions);
    sessions.put(pid, session);
    actions.push(Action::NotifyTracer { pid });
    Some(Stop { actions, flags })
}

/// What a stopped process does when its sleep has ended: it runs on with the
/// flags of the breakpoint if it was notified; `None` says that it was
/// interrupted and has to come to the same place again.
pub fn callback_woken(stop: &Stop, notified: bool) -> (flags: Option<PtraceFlags>)
    ensures
        flags == (if notified { Some(stop.flags) } else { None }),
{
    if notified {
        Some(stop.flags)
    } else {
        None
    }
}

/// What the breakpoint of the current process asks for, if it has one.
pub open spec fn breakpoint_flags(
    sessions: Sessions,
    current: Option<ContextId>,
) -> Option<PtraceFlags> {
    match current {
        Some(pid) => if sessions.contains_key(pid) {
            match sessions[pid].breakpoint {
                Some(breakpoint) => Some(breakpoint.flags),
                None => None,
            }
        } else {
            None
        },
        None => None,
    }
}

/// What the next breakpoint of the current process asks for. This tells whether
/// the tracer wants system calls to be emulated.
pub fn next_breakpoint(sessions: &SessionMap, current: Option<ContextId>) -> (flags: Option<
    PtraceFlags,
>)
    ensures
        flags == breakpoint_flags(sessions@, current),
{
    let pid = current?;
    let breakpoint = sessions.get(pid)?.breakpoint?;
    Some(breakpoint.flags)
}

/// What has to be done when a traced process ends: its tracer is alerted and
/// woken.
pub open spec fn ending_actions(pid: ContextId, session: SessionState) -> Seq<Action> {
    seq![
        Action::Trigger { file_id: session.file_id, flags: EVENT_READ },
        Action::NotifyTracer { pid },
    ]
}

/// Alerts the tracer of a process that ends. The session stays open, without its
/// breakpoint. Returns `None` if the process is not traced.
pub fn close_tracee(sessions: &mut SessionMap, pid: ContextId) -> (actions: Option<Vec<Action>>)
    ensures
        actions is Some <==> old(sessions)@.contains_key(pid),
        actions matches Some(actions) ==> actions@ == ending_actions(pid, old(sessions)@[pid]),
        final(sessions)@ == after_breakpoint(old(sessions)@, pid, None),
{
    let mut session = sessions.take(pid)?;
    session.breakpoint = None;
    let mut actions: Vec<Action> = Vec::new();
    proc_trigger_event(&mut actions, session.file_id, EVENT_READ);
    sessions.put(pid, session);
    actions.push(Action::NotifyTracer { pid });
    Some(actions)
}

} // verus!
