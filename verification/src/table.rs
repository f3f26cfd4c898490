//! The sessions shared by the whole kernel, behind a lock.
//!
//! Each operation takes the lock, makes one step on the sessions, and returns the
//! guard along with the outcome. While the guard lives, the sessions stay as the
//! step left them: the kernel holds it until it has done what the step asks for,
//! or until it is asleep.

use crate::breakpoint::{
    after_breakpoint, after_callback, breakpoint_flags, ending_actions, oldest_event, pending,
    wait_step, Status, Stop, WaitStep,
};
use crate::error::{Error, ESRCH};
use crate::event::{Action, ContextId, PtraceEvent};
use crate::flags::{EventFlags, PtraceFlags};
use crate::session::{
    after_new_session, after_recv, after_send, arrival_actions, closing_actions, listening, readable,
    readiness, SessionMap, Sessions,
};
use spin::{RwLock, RwLockReadGuard, RwLockWriteGuard};
use std::ops::{Deref, DerefMut};
use vstd::prelude::*;

verus! {

/// The lock, `spin::RwLock`. Nothing is said of what is in it: other processes
/// change that at any time.
#[verifier::external_type_specification]
#[verifier::external_body]
#[verifier::reject_recursive_types(T)]
pub struct ExRwLock<T: ?Sized>(RwLock<T>);

/// The right to read what is in the lock, `spin::RwLockReadGuard`.
#[verifier::external_type_specification]
#[verifier::external_body]
#[verifier::reject_recursive_types(T)]
pub struct ExRwLockReadGuard<'a, T: ?Sized>(RwLockReadGuard<'a, T>);

/// The right to change what is in the lock, `spin::RwLockWriteGuard`.
#[verifier::external_type_specification]
#[verifier::external_body]
#[verifier::reject_recursive_types(T)]
pub struct ExRwLockWriteGuard<'a, T: ?Sized + 'a>(RwLockWriteGuard<'a, T>);

/// The sessions that a lock was made with.
pub uninterp spec fn made_with(lock: RwLock<SessionMap>) -> Sessions;

/// The sessions that a guard lets its holder read. No one changes them while it
/// lives.
pub uninterp spec fn seen_by(guard: RwLockReadGuard<SessionMap>) -> Sessions;

/// The sessions that a guard lets its holder change. No one else changes or reads
/// them while it lives.
pub uninterp spec fn held_by(guard: RwLockWriteGuard<SessionMap>) -> Sessions;

/// The sessions that a guard found in the lock when it was taken.
pub uninterp spec fn found_by(guard: RwLockWriteGuard<SessionMap>) -> Sessions;

/// The lock that a guard for reading was taken from, and releases in the end.
pub uninterp spec fn read_lock_of(guard: RwLockReadGuard<SessionMap>) -> RwLock<SessionMap>;

/// The lock that a guard for changing was taken from, and releases in the end.
pub uninterp spec fn write_lock_of(guard: RwLockWriteGuard<SessionMap>) -> RwLock<SessionMap>;

/// Calls `spin::RwLock::new`, which puts the given value into a new lock.
#[verifier::external_body]
fn new_lock(sessions: SessionMap) -> (lock: RwLock<SessionMap>)
    ensures
        made_with(lock) == sessions@,
{
    RwLock::new(sessions)
}

/// Calls `spin::RwLock::read`, which blocks until no one changes what is in the
/// lock, and returns a guard for that lock. What the guard lets its holder read is
/// left unsaid: it depends on who held the lock before.
#[verifier::external_body]
fn read_lock(lock: &RwLock<SessionMap>) -> (guard: RwLockReadGuard<'_, SessionMap>)
    ensures
        read_lock_of(guard) == *lock,
{
    lock.read()
}

/// Calls `spin::RwLock::write`, which blocks until no one else reads or changes
/// what is in the lock, and returns a guard for that lock, with everything as it
/// was found there. What was found is left unsaid: it depends on who held the lock
/// before.
#[verifier::external_body]
fn write_lock(lock: &RwLock<SessionMap>) -> (guard: RwLockWriteGuard<'_, SessionMap>)
    ensures
        write_lock_of(guard) == *lock,
        found_by(guard) == held_by(guard),
{
    lock.write()
}

/// Calls `deref` of `spin::RwLockReadGuard`, which gives access to what is in the
/// lock.
#[verifier::external_body]
fn read_sessions<'b>(guard: &'b RwLockReadGuard<'_, SessionMap>) -> (sessions: &'b SessionMap)
    ensures
        sessions@ == seen_by(*guard),
{
    guard.deref()
}

/// Calls `deref_mut` of `spin::RwLockWriteGuard`, which gives access to what is in
/// the lock: what is changed through it is changed in the lock. The guard stays one
/// for the same lock, taken when it was.
#[verifier::external_body]
fn write_sessions<'b>(guard: &'b mut RwLockWriteGuard<'_, SessionMap>) -> (sessions:
    &'b mut SessionMap)
    ensures
        sessions@ == held_by(*old(guard)),
        final(sessions)@ == held_by(*final(guard)),
        found_by(*final(guard)) == found_by(*old(guard)),
        write_lock_of(*final(guard)) == write_lock_of(*old(guard)),
{
    guard.deref_mut()
}

/// The sessions of the kernel.
pub struct SessionTable {
    lock: RwLock<SessionMap>,
}

/// Makes a table in which no session is open.
pub fn init_sessions() -> (table: SessionTable)
    ensures
        table.opened_with() == Sessions::empty(),
{
    SessionTable { lock: new_lock(SessionMap::new()) }
}

impl SessionTable {
    /// The sessions that were open when the table was made.
    pub closed spec fn opened_with(&self) -> Sessions {
        made_with(self.lock)
    }

    /// The guard holds the lock of this table, for reading.
    pub closed spec fn is_read_through(&self, guard: RwLockReadGuard<SessionMap>) -> bool {
        read_lock_of(guard) == self.lock
    }

    /// The guard holds the lock of this table, for changing the sessions.
    pub closed spec fn is_changed_through(&self, guard: RwLockWriteGuard<SessionMap>) -> bool {
        write_lock_of(guard) == self.lock
    }

    /// Takes the lock for reading.
    pub fn sessions(&self) -> (guard: RwLockReadGuard<'_, SessionMap>)
        ensures
            self.is_read_through(guard),
    {
        read_lock(&self.lock)
    }

    /// Takes the lock for changing the sessions.
    pub fn sessions_mut(&self) -> (guard: RwLockWriteGuard<'_, SessionMap>)
        ensures
            self.is_changed_through(guard),
            found_by(guard) == held_by(guard),
    {
        write_lock(&self.lock)
    }

    /// Opens a session, as `session::try_new_session` does.
    pub fn try_new_session(&self, pid: ContextId, file_id: usize) -> (outcome: (
        RwLockWriteGuard<'_, SessionMap>,
        bool,
    ))
        ensures
            self.is_changed_through(outcome.0),
            held_by(outcome.0) == after_new_session(found_by(outcome.0), pid, file_id),
            outcome.1 == !found_by(outcome.0).contains_key(pid),
    {
        let mut guard = self.sessions_mut();
        let opened = crate::session::try_new_session(write_sessions(&mut guard), pid, file_id);
        (guard, opened)
    }

    /// Tells whether a process is traced, as `session::is_traced` does.
    pub fn is_traced(&self, pid: ContextId) -> (outcome: (RwLockReadGuard<'_, SessionMap>, bool))
        ensures
            self.is_read_through(outcome.0),
            outcome.1 == seen_by(outcome.0).contains_key(pid),
    {
        let guard = self.sessions();
        let traced = crate::session::is_traced(read_sessions(&guard), pid);
        (guard, traced)
    }

    /// Tells what a tracer's file is ready for, as `session::session_fevent_flags`
    /// does.
    pub fn session_fevent_flags(&self, pid: ContextId) -> (outcome: (
        RwLockReadGuard<'_, SessionMap>,
        Option<EventFlags>,
    ))
        ensures
            self.is_read_through(outcome.0),
            outcome.1 == (if seen_by(outcome.0).contains_key(pid) {
                Some(readiness(seen_by(outcome.0)[pid]))
            } else {
                None
            }),
    {
        let guard = self.sessions();
        let flags = crate::session::session_fevent_flags(read_sessions(&guard), pid);
        (guard, flags)
    }

    /// Closes a session, as `session::close_session` does.
    pub fn close_session(&self, pid: ContextId) -> (outcome: (
        RwLockWriteGuard<'_, SessionMap>,
        Vec<Action>,
    ))
        ensures
            self.is_changed_through(outcome.0),
            held_by(outcome.0) == found_by(outcome.0).remove(pid),
            outcome.1@ == closing_actions(found_by(outcome.0), pid),
    {
        let mut guard = self.sessions_mut();
        let actions = crate::session::close_session(write_sessions(&mut guard), pid);
        (guard, actions)
    }

    /// Sends an event, as `session::send_event` does.
    pub fn send_event(&self, current: Option<ContextId>, event: PtraceEvent) -> (outcome: (
        RwLockWriteGuard<'_, SessionMap>,
        Option<Vec<Action>>,
    ))
        ensures
            self.is_changed_through(outcome.0),
            held_by(outcome.0) == after_send(found_by(outcome.0), current, event),
            outcome.1 is Some <==> listening(found_by(outcome.0), current, event.cause),
            outcome.1 matches Some(actions) ==> actions@ == arrival_actions(
                current->0,
                found_by(outcome.0)[current->0],
            ),
    {
        let mut guard = self.sessions_mut();
        let sent = crate::session::send_event(write_sessions(&mut guard), current, event);
        (guard, sent)
    }

    /// Reads events, as `session::recv_events` does.
    pub fn recv_events(&self, pid: ContextId, out: &mut [PtraceEvent]) -> (outcome: (
        RwLockWriteGuard<'_, SessionMap>,
        Option<usize>,
    ))
        ensures
            self.is_changed_through(outcome.0),
            held_by(outcome.0) == after_recv(found_by(outcome.0), pid, old(out)@.len()),
            outcome.1 is Some <==> found_by(outcome.0).contains_key(pid),
            outcome.1 is None ==> final(out)@ == old(out)@,
            outcome.1 matches Some(count) ==> {
                let session = found_by(outcome.0)[pid];
                &&& count == readable(session, old(out)@.len())
                &&& final(out)@ == session.events.take(count as int) + old(out)@.skip(count as int)
            },
    {
        let mut guard = self.sessions_mut();
        let count = crate::session::recv_events(write_sessions(&mut guard), pid, out);
        (guard, count)
    }

    /// Lets a process run on, as `breakpoint::cont` does.
    pub fn cont(&self, pid: ContextId) -> (outcome: (
        RwLockWriteGuard<'_, SessionMap>,
        Vec<Action>,
    ))
        ensures
            self.is_changed_through(outcome.0),
            held_by(outcome.0) == after_breakpoint(found_by(outcome.0), pid, None),
            outcome.1@ == (if found_by(outcome.0).contains_key(pid) {
                seq![Action::NotifyTracee { pid }]
            } else {
                Seq::empty()
            }),
    {
        let mut guard = self.sessions_mut();
        let actions = crate::breakpoint::cont(write_sessions(&mut guard), pid);
        (guard, actions)
    }

    /// Sets a breakpoint, as `breakpoint::set_breakpoint` does. The actions are
    /// `None`, and nothing is changed, if the process is not traced.
    pub fn set_breakpoint(&self, pid: ContextId, flags: PtraceFlags, should_continue: bool) -> (
    outcome: (RwLockWriteGuard<'_, SessionMap>, Option<Vec<Action>>))
        ensures
            self.is_changed_through(outcome.0),
            held_by(outcome.0) == after_breakpoint(found_by(outcome.0), pid, pending(flags)),
            outcome.1 is Some <==> found_by(outcome.0).contains_key(pid),
            outcome.1 matches Some(actions) ==> actions@ == (if should_continue {
                seq![Action::NotifyTracee { pid }]
            } else {
                Seq::empty()
            }),
    {
        let mut guard = self.sessions_mut();
        let sessions = write_sessions(&mut guard);
        if !crate::session::is_traced(sessions, pid) {
            return (guard, None);
        }
        let actions = crate::breakpoint::set_breakpoint(sessions, pid, flags, should_continue);
        (guard, Some(actions))
    }

    /// Makes one step of a wait, as `breakpoint::wait` does.
    pub fn wait(&self, pid: ContextId) -> (outcome: (RwLockReadGuard<'_, SessionMap>, WaitStep))
        ensures
            self.is_read_through(outcome.0),
            outcome.1 == wait_step(seen_by(outcome.0), pid),
    {
        let guard = self.sessions();
        let step = crate::breakpoint::wait(read_sessions(&guard), pid);
        (guard, step)
    }

    /// Ends a wait, as `breakpoint::wait_finish` does.
    pub fn wait_finish(&self, pid: ContextId, status: Option<Status>) -> (outcome: (
        RwLockReadGuard<'_, SessionMap>,
        Result<Option<PtraceEvent>, Error>,
    ))
        ensures
            self.is_read_through(outcome.0),
            outcome.1 == (if status == Some(Status::Alive) {
                Ok(oldest_event(seen_by(outcome.0), pid))
            } else {
                Err(Error { errno: ESRCH })
            }),
    {
        let guard = self.sessions();
        let result = crate::breakpoint::wait_finish(read_sessions(&guard), pid, status);
        (guard, result)
    }

    /// Stops the current process if its tracer asked for that, as
    /// `breakpoint::breakpoint_callback` does.
    pub fn breakpoint_callback(
        &self,
        current: Option<ContextId>,
        match_flags: PtraceFlags,
        event: Option<PtraceEvent>,
    ) -> (outcome: (RwLockWriteGuard<'_, SessionMap>, Option<Stop>))
        ensures
            self.is_changed_through(outcome.0),
            held_by(outcome.0) == after_callback(
                found_by(outcome.0),
                current,
                match_flags,
                event,
            ),
            outcome.1 is Some <==> listening(found_by(outcome.0), current, match_flags),
            outcome.1 matches Some(stop) ==> {
                let before = found_by(outcome.0);
                &&& stop.actions@ == arrival_actions(current->0, before[current->0])
                &&& breakpoint_flags(before, current) == Some(stop.flags)
            },
    {
        let mut guard = self.sessions_mut();
        let stop = crate::breakpoint::breakpoint_callback(
            write_sessions(&mut guard),
            current,
            match_flags,
            event,
        );
        (guard, stop)
    }

    /// Tells what the next breakpoint of the current process asks for, as
    /// `breakpoint::next_breakpoint` does.
    pub fn next_breakpoint(&self, current: Option<ContextId>) -> (outcome: (
        RwLockReadGuard<'_, SessionMap>,
        Option<PtraceFlags>,
    ))
        ensures
            self.is_read_through(outcome.0),
            outcome.1 == breakpoint_flags(seen_by(outcome.0), current),
    {
        let guard = self.sessions();
        let flags = crate::breakpoint::next_breakpoint(read_sessions(&guard), current);
        (guard, flags)
    }

    /// Alerts the tracer of a process that ends, as `breakpoint::close_tracee`
    /// does.
    pub fn close_tracee(&self, pid: ContextId) -> (outcome: (
        RwLockWriteGuard<'_, SessionMap>,
        Option<Vec<Action>>,
    ))
        ensures
            self.is_changed_through(outcome.0),
            held_by(outcome.0) == after_breakpoint(found_by(outcome.0), pid, None),
            outcome.1 is Some <==> found_by(outcome.0).contains_key(pid),
            outcome.1 matches Some(actions) ==> actions@ == ending_actions(
                pid,
                found_by(outcome.0)[pid],
            ),
    {
        let mut guard = self.sessions_mut();
        let actions = crate::breakpoint::close_tracee(write_sessions(&mut guard), pid);
        (guard, actions)
    }
}

/// A guard is one for a single table: no other table is read or changed through it.
/// The table was made with what its lock was made with.
pub proof fn law_guard_belongs_to_one_table(
    table: SessionTable,
    other: SessionTable,
    reader: RwLockReadGuard<SessionMap>,
    writer: RwLockWriteGuard<SessionMap>,
)
    ensures
        table.is_read_through(reader) && other.is_read_through(reader) ==> table == other,
        table.is_changed_through(writer) && other.is_changed_through(writer) ==> table == other,
        table.is_read_through(reader) ==> table.opened_with() == made_with(read_lock_of(reader)),
        table.is_changed_through(writer) ==> table.opened_with() == made_with(
            write_lock_of(writer),
        ),
{
}

} // verus!
