//! Tracing sessions: one for each traced process.

use crate::event::{proc_trigger_event, Action, ContextId, PtraceEvent};
use crate::flags::{EventFlags, PtraceFlags, EVENT_NONE, EVENT_READ};
use std::collections::BTreeMap;
use std::collections::VecDeque;
use vstd::prelude::*;

verus! {

/// What a tracer asked to be told of.
#[derive(Clone, Copy, Debug, PartialEq, Eq, Structural)]
pub struct Breakpoint {
    /// The process stopped here.
    pub reached: bool,
    /// The stops and events asked for.
    pub flags: PtraceFlags,
}

/// One tracing session.
#[derive(Debug)]
pub struct SessionData {
    pub breakpoint: Option<Breakpoint>,
    /// Events that the tracer has not read, oldest first.
    pub events: VecDeque<PtraceEvent>,
    /// The tracer's open file.
    pub file_id: usize,
}

/// What a session holds, as a mathematical value.
#[verifier::ext_equal]
pub struct SessionState {
    pub breakpoint: Option<Breakpoint>,
    pub events: Seq<PtraceEvent>,
    pub file_id: usize,
}

impl SessionState {
    /// A session that was just opened.
    pub open spec fn fresh(file_id: usize) -> SessionState {
        SessionState { breakpoint: None, events: Seq::empty(), file_id }
    }

    /// The session with one more unread event.
    pub open spec fn with_event(self, event: PtraceEvent) -> SessionState {
        SessionState { events: self.events.push(event), ..self }
    }

    /// The session with another breakpoint.
    pub open spec fn with_breakpoint(self, breakpoint: Option<Breakpoint>) -> SessionState {
        SessionState { breakpoint, ..self }
    }

    /// The session once its `count` oldest events have been read.
    pub open spec fn after_reading(self, count: int) -> SessionState {
        SessionState { events: self.events.skip(count), ..self }
    }

    /// The tracer asked for everything in `cause`.
    pub open spec fn asked_for(self, cause: PtraceFlags) -> bool {
        self.breakpoint matches Some(breakpoint) && breakpoint.flags.includes(cause)
    }

    /// What a tracer that does not block is told when an event arrives: it is
    /// alerted of the first unread event and of none that follows.
    pub open spec fn alert(self) -> Seq<Action> {
        if self.events.len() == 0 {
            seq![Action::Trigger { file_id: self.file_id, flags: EVENT_READ }]
        } else {
            Seq::empty()
        }
    }
}

impl View for SessionData {
    type V = SessionState;

    open spec fn view(&self) -> SessionState {
        SessionState {
            breakpoint: self.breakpoint,
            events: self.events@,
            file_id: self.file_id,
        }
    }
}

impl SessionData {
    /// Queues an event, and alerts a tracer that does not block if the queue was
    /// empty.
    pub fn add_event(&mut self, event: PtraceEvent, actions: &mut Vec<Action>)
        ensures
            final(self)@ == old(self)@.with_event(event),
            final(actions)@ == old(actions)@ + old(self)@.alert(),
    {
        self.events.push_back(event);
        if self.events.len() == 1 {
            proc_trigger_event(actions, self.file_id, EVENT_READ);
        }
    }
}

/// The sessions as a mathematical value: the traced processes, each with its
/// session.
pub type Sessions = Map<ContextId, SessionState>;

/// The open sessions.
#[derive(Debug)]
pub struct SessionMap {
    sessions: BTreeMap<ContextId, SessionData>,
}

impl View for SessionMap {
    type V = Sessions;

    closed spec fn view(&self) -> Sessions {
        self.sessions@.map_values(|data: SessionData| data@)
    }
}

impl SessionMap {
    /// No session is open.
    pub fn new() -> (sessions: SessionMap)
        ensures
            sessions@ == Sessions::empty(),
    {
        SessionMap { sessions: BTreeMap::new() }
    }

    /// The session of `pid`, if it is traced.
    pub fn get(&self, pid: ContextId) -> (session: Option<&SessionData>)
        ensures
            session is Some <==> self@.contains_key(pid),
            session matches Some(data) ==> data@ == self@[pid],
    {
        self.sessions.get(&pid)
    }

    /// Takes the session of `pid` out, if it is traced.
    pub(crate) fn take(&mut self, pid: ContextId) -> (session: Option<SessionData>)
        ensures
            session is Some <==> old(self)@.contains_key(pid),
            session matches Some(data) ==> data@ == old(self)@[pid],
            final(self)@ == old(self)@.remove(pid),
    {
        self.sessions.remove(&pid)
    }

    /// Makes `data` the session of `pid`.
    pub(crate) fn put(&mut self, pid: ContextId, data: SessionData)
        ensures
            final(self)@ == old(self)@.insert(pid, data@),
    {
        self.sessions.insert(pid, data);
    }
}

/// The sessions after an attempt to open one for `pid`.
pub open spec fn after_new_session(sessions: Sessions, pid: ContextId, file_id: usize) -> Sessions {
    if sessions.contains_key(pid) {
        sessions
    } else {
        sessions.insert(pid, SessionState::fresh(file_id))
    }
}

/// Opens a session for `pid`, unless the process is traced already. Returns
/// whether the session was opened.
pub fn try_new_session(sessions: &mut SessionMap, pid: ContextId, file_id: usize) -> (opened: bool)
    ensures
        opened == !old(sessions)@.contains_key(pid),
        final(sessions)@ == after_new_session(old(sessions)@, pid, file_id),
{
    if sessions.get(pid).is_some() {
        false
    } else {
        sessions.put(pid, SessionData { breakpoint: None, events: VecDeque::new(), file_id });
        true
    }
}

/// Tells whether a session is attached to this process.
pub fn is_traced(sessions: &SessionMap, pid: ContextId) -> (traced: bool)
    ensures
        traced == sessions@.contains_key(pid),
{
    sessions.get(pid).is_some()
}

/// What the tracer's file is ready for: reading, while there are unread events.
pub open spec fn readiness(session: SessionState) -> EventFlags {
    if session.events.len() == 0 {
        EVENT_NONE
    } else {
        EVENT_READ
    }
}

/// What the file of the tracer of `pid` is ready for, if the process is traced.
pub fn session_fevent_flags(sessions: &SessionMap, pid: ContextId) -> (flags: Option<EventFlags>)
    ensures
        flags == (if sessions@.contains_key(pid) {
            Some(readiness(sessions@[pid]))
        } else {
            None
        }),
{
    let session = sessions.get(pid)?;
    let mut flags: EventFlags = EVENT_NONE;
    if session.events.len() != 0 {
        flags = flags | EVENT_READ;
        assert(0usize | 1usize == 1usize) by (bit_vector);
    }
    Some(flags)
}

/// What has to be done when the session of `pid` is closed: both sides are woken,
/// the tracer first.
pub open spec fn closing_actions(sessions: Sessions, pid: ContextId) -> Seq<Action> {
    if sessions.contains_key(pid) {
        seq![Action::NotifyTracer { pid }, Action::NotifyTracee { pid }]
    } else {
        Seq::empty()
    }
}

/// Closes the session of `pid`, if there is one, and has the processes that wait
/// on it woken.
pub fn close_session(sessions: &mut SessionMap, pid: ContextId) -> (actions: Vec<Action>)
    ensures
        final(sessions)@ == old(sessions)@.remove(pid),
        actions@ == closing_actions(old(sessions)@, pid),
{
    let mut actions: Vec<Action> = Vec::new();
    if sessions.take(pid).is_some() {
        actions.push(Action::NotifyTracer { pid });
        actions.push(Action::NotifyTracee { pid });
    }
    actions
}

/// There is a current process, it is traced, and its tracer asked for everything
/// in `cause`.
pub open spec fn listening(
    sessions: Sessions,
    current: Option<ContextId>,
    cause: PtraceFlags,
) -> bool {
    current matches Some(pid) && sessions.contains_key(pid) && sessions[pid].asked_for(cause)
}

/// The sessions after `event` happened in the current process.
pub open spec fn after_send(
    sessions: Sessions,
    current: Option<ContextId>,
    event: PtraceEvent,
) -> Sessions {
    if listening(sessions, current, event.cause) {
        sessions.insert(current->0, sessions[current->0].with_event(event))
    } else {
        sessions
    }
}

/// What has to be done when an event arrives in the session of `pid`: a tracer
/// that does not block may have to be alerted, then one that waits is woken.
pub open spec fn arrival_actions(pid: ContextId, session: SessionState) -> Seq<Action> {
    session.alert().push(Action::NotifyTracer { pid })
}

/// Hands an event to the tracer of the current process, if that tracer asked for
/// such events. Returns what has to be done if the event was sent, and `None` if
/// it was not.
pub fn send_event(
    sessions: &mut SessionMap,
    current: Option<ContextId>,
    event: PtraceEvent,
) -> (sent: Option<Vec<Action>>)
    ensures
        sent is Some <==> listening(old(sessions)@, current, event.cause),
        sent matches Some(actions) ==> actions@ == arrival_actions(
            current->0,
            old(sessions)@[current->0],
        ),
        final(sessions)@ == after_send(old(sessions)@, current, event),
{
    let pid = current?;
    let flags = sessions.get(pid)?.breakpoint?.flags;
    if !flags.contains(event.cause) {
        return None;
    }
    let mut session = sessions.take(pid)?;
    let mut actions: Vec<Action> = Vec::new();
    session.add_event(event, &mut actions);
    sessions.put(pid, session);
    actions.push(Action::NotifyTracer { pid });
    Some(actions)
}

/// How many of the unread events fit into `room` places.
pub open spec fn readable(session: SessionState, room: nat) -> nat {
    if room <= session.events.len() {
        room
    } else {
        session.events.len()
    }
}

/// The sessions after the tracer of `pid` read into `room` places.
pub open spec fn after_recv(sessions: Sessions, pid: ContextId, room: nat) -> Sessions {
    if sessions.contains_key(pid) {
        let session = sessions[pid];
        sessions.insert(pid, session.after_reading(readable(session, room) as int))
    } else {
        sessions
    }
}

/// Reads the oldest unread events of `pid` into `out`, as many as there are and
/// as fit. Returns their number, or `None` if the process is not traced.
pub fn recv_events(sessions: &mut SessionMap, pid: ContextId, out: &mut [PtraceEvent]) -> (count:
    Option<usize>)
    ensures
        count is Some <==> old(sessions)@.contains_key(pid),
        count is None ==> final(out)@ == old(out)@,
        count matches Some(count) ==> {
            let session = old(sessions)@[pid];
            &&& count == readable(session, old(out)@.len())
            &&& final(out)@ == session.events.take(count as int) + old(out)@.skip(count as int)
        },
        final(sessions)@ == after_recv(old(sessions)@, pid, old(out)@.len()),
{
    let mut session = sessions.take(pid)?;
    let ghost unread = session@.events;
    let room = out.len();
    let queued = session.events.len();
    let count = if room <= queued { room } else { queued };
    let mut read: usize = 0;
    while read < count
        invariant
            read <= count,
            count <= unread.len(),
            count <= old(out)@.len(),
            session@.events == unread.skip(read as int),
            session@.breakpoint == old(sessions)@[pid].breakpoint,
            session@.file_id == old(sessions)@[pid].file_id,
            out@ == unread.take(read as int) + old(out)@.skip(read as int),
        decreases count - read,
    {
        match session.events.pop_front() {
            Some(event) => {
                out[read] = event;
            },
            None => {},
        }
        read += 1;
        assert(out@ =~= unread.take(read as int) + old(out)@.skip(read as int));
    }
    sessions.put(pid, session);
    Some(count)
}

} // verus!
