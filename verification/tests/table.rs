use ptrace::breakpoint::{Status, WaitStep};
use ptrace::error::{Error, ESRCH};
use ptrace::event::{Action, PtraceEvent};
use ptrace::flags::{PtraceFlags, EVENT_NONE, EVENT_READ};
use ptrace::session::is_traced;
use ptrace::table::init_sessions;

fn flags(bits: u64) -> PtraceFlags {
    PtraceFlags { bits }
}

fn event(cause: u64, a: usize) -> PtraceEvent {
    PtraceEvent { cause: flags(cause), a, b: 0, c: 0, d: 0, e: 0, f: 0 }
}

#[test]
fn a_new_table_is_empty() {
    let table = init_sessions();
    assert!(!table.is_traced(0).1);
    assert_eq!(table.session_fevent_flags(0).1, None);
    assert!(!is_traced(&table.sessions(), 4));
}

#[test]
fn changes_stay_in_the_table() {
    let table = init_sessions();
    assert!(table.try_new_session(4, 10).1);
    assert!(!table.try_new_session(4, 11).1);
    assert!(table.is_traced(4).1);
    assert!(is_traced(&table.sessions_mut(), 4));
    assert_eq!(
        table.close_session(4).1,
        vec![Action::NotifyTracer { pid: 4 }, Action::NotifyTracee { pid: 4 }]
    );
    assert!(!table.is_traced(4).1);
}

#[test]
fn a_guard_shows_what_the_step_left() {
    let table = init_sessions();
    let (guard, opened) = table.try_new_session(4, 10);
    assert!(opened);
    assert!(is_traced(&guard, 4));
    drop(guard);
    let (guard, traced) = table.is_traced(4);
    assert!(traced);
    // Readers do not exclude each other.
    assert!(table.is_traced(4).1);
    assert_eq!(guard.get(4).map(|session| session.file_id), Some(10));
}

#[test]
fn events_go_through_the_table() {
    let table = init_sessions();
    table.try_new_session(4, 10);
    assert_eq!(table.session_fevent_flags(4).1, Some(EVENT_NONE));
    assert_eq!(table.wait(4).1, WaitStep::Sleep);
    assert_eq!(table.set_breakpoint(5, flags(1), true).1, None);
    assert_eq!(
        table.set_breakpoint(4, flags(1), true).1,
        Some(vec![Action::NotifyTracee { pid: 4 }])
    );
    assert_eq!(table.next_breakpoint(Some(4)).1, Some(flags(1)));
    assert_eq!(
        table.send_event(Some(4), event(1, 6)).1,
        Some(vec![
            Action::Trigger { file_id: 10, flags: EVENT_READ },
            Action::NotifyTracer { pid: 4 }
        ])
    );
    assert_eq!(table.session_fevent_flags(4).1, Some(EVENT_READ));
    assert_eq!(table.wait(4).1, WaitStep::Finish);
    assert_eq!(table.wait_finish(4, Some(Status::Alive)).1, Ok(Some(event(1, 6))));
    assert_eq!(table.wait_finish(4, None).1, Err(Error { errno: ESRCH }));
    let mut out = [event(9, 9); 2];
    assert_eq!(table.recv_events(4, &mut out).1, Some(1));
    assert_eq!(out, [event(1, 6), event(9, 9)]);
    assert_eq!(table.recv_events(5, &mut out).1, None);
}

#[test]
fn stops_go_through_the_table() {
    let table = init_sessions();
    table.try_new_session(4, 10);
    assert!(table.breakpoint_callback(Some(4), flags(1), None).1.is_none());
    table.set_breakpoint(4, flags(3), false);
    let stop = table.breakpoint_callback(Some(4), flags(1), None).1.unwrap();
    assert_eq!(stop.flags, flags(3));
    assert_eq!(table.wait(4).1, WaitStep::Finish);
    assert_eq!(table.cont(4).1, vec![Action::NotifyTracee { pid: 4 }]);
    assert_eq!(table.next_breakpoint(Some(4)).1, None);
    assert_eq!(
        table.close_tracee(4).1,
        Some(vec![
            Action::Trigger { file_id: 10, flags: EVENT_READ },
            Action::NotifyTracer { pid: 4 }
        ])
    );
    assert_eq!(table.close_tracee(5).1, None);
}

#[test]
fn an_operation_makes_one_step_on_what_it_finds() {
    let table = init_sessions();
    table.try_new_session(4, 10);
    table.set_breakpoint(4, flags(1), false);
    let (guard, opened) = table.try_new_session(4, 11);
    assert!(!opened);
    assert_eq!(guard.get(4).map(|session| session.file_id), Some(10));
    assert!(guard.get(4).unwrap().breakpoint.is_some());
    drop(guard);
    let (guard, _) = table.send_event(Some(4), event(1, 6));
    assert_eq!(guard.get(4).map(|session| session.events.len()), Some(1));
    drop(guard);
    let (guard, stop) = table.breakpoint_callback(Some(4), flags(1), None);
    assert!(stop.is_some());
    assert_eq!(guard.get(4).map(|session| session.events.len()), Some(2));
}

#[test]
fn tables_are_apart() {
    let (first, second) = (init_sessions(), init_sessions());
    let (guard, opened) = first.try_new_session(4, 10);
    assert!(opened);
    assert!(!second.is_traced(4).1);
    assert!(is_traced(&guard, 4));
}
