use ptrace::breakpoint::{
    breakpoint_callback, callback_woken, close_tracee, cont, next_breakpoint, set_breakpoint, wait,
    wait_finish, wait_returns, wait_woken, Status, WaitStep,
};
use ptrace::error::{Error, ESRCH};
use ptrace::event::{Action, PtraceEvent};
use ptrace::flags::{PtraceFlags, EVENT_READ};
use ptrace::session::{close_session, recv_events, send_event, try_new_session, SessionMap};

fn flags(bits: u64) -> PtraceFlags {
    PtraceFlags { bits }
}

fn event(cause: u64, a: usize) -> PtraceEvent {
    PtraceEvent { cause: flags(cause), a, b: 0, c: 0, d: 0, e: 0, f: 0 }
}

fn opened(pid: usize, file_id: usize) -> SessionMap {
    let mut sessions = SessionMap::new();
    assert!(try_new_session(&mut sessions, pid, file_id));
    sessions
}

#[test]
fn a_new_breakpoint_is_pending() {
    let mut sessions = opened(4, 10);
    assert_eq!(next_breakpoint(&sessions, Some(4)), None);
    assert_eq!(set_breakpoint(&mut sessions, 4, flags(6), false), vec![]);
    assert_eq!(next_breakpoint(&sessions, Some(4)), Some(flags(6)));
    assert_eq!(next_breakpoint(&sessions, Some(5)), None);
    assert_eq!(next_breakpoint(&sessions, None), None);
    assert_eq!(wait(&sessions, 4), WaitStep::Sleep);
    assert_eq!(
        set_breakpoint(&mut sessions, 4, flags(1), true),
        vec![Action::NotifyTracee { pid: 4 }]
    );
    assert_eq!(next_breakpoint(&sessions, Some(4)), Some(flags(1)));
}

#[test]
fn cont_removes_the_breakpoint_and_keeps_the_events() {
    let mut sessions = opened(4, 10);
    set_breakpoint(&mut sessions, 4, flags(1), false);
    assert!(send_event(&mut sessions, Some(4), event(1, 3)).is_some());
    assert_eq!(cont(&mut sessions, 4), vec![Action::NotifyTracee { pid: 4 }]);
    assert_eq!(next_breakpoint(&sessions, Some(4)), None);
    assert_eq!(send_event(&mut sessions, Some(4), event(1, 4)), None);
    assert!(breakpoint_callback(&mut sessions, Some(4), flags(0), None).is_none());
    let mut out = [event(9, 9); 1];
    assert_eq!(recv_events(&mut sessions, 4, &mut out), Some(1));
    assert_eq!(out, [event(1, 3)]);
    assert_eq!(cont(&mut sessions, 5), vec![]);
}

#[test]
fn a_stop_is_reported_and_remembered() {
    let mut sessions = opened(4, 10);
    set_breakpoint(&mut sessions, 4, flags(0b11), false);
    let stop = breakpoint_callback(&mut sessions, Some(4), flags(0b10), None).unwrap();
    assert_eq!(
        stop.actions,
        vec![
            Action::Trigger { file_id: 10, flags: EVENT_READ },
            Action::NotifyTracer { pid: 4 }
        ]
    );
    assert_eq!(stop.flags, flags(0b11));
    assert_eq!(wait(&sessions, 4), WaitStep::Finish);
    let mut out = [event(9, 9); 2];
    assert_eq!(recv_events(&mut sessions, 4, &mut out), Some(1));
    assert_eq!(out[0], event(0b10, 0));
    assert_eq!(wait(&sessions, 4), WaitStep::Finish);
    cont(&mut sessions, 4);
    assert_eq!(wait(&sessions, 4), WaitStep::Sleep);
}

#[test]
fn a_stop_reports_the_given_event() {
    let mut sessions = opened(4, 10);
    set_breakpoint(&mut sessions, 4, flags(0b11), false);
    let given = Some(event(0b100, 5));
    assert!(breakpoint_callback(&mut sessions, Some(4), flags(0b01), given).is_some());
    // A stop that was interrupted comes to the same place and reports again.
    let stop = breakpoint_callback(&mut sessions, Some(4), flags(0b01), given).unwrap();
    assert_eq!(stop.actions, vec![Action::NotifyTracer { pid: 4 }]);
    let mut out = [event(9, 9); 3];
    assert_eq!(recv_events(&mut sessions, 4, &mut out), Some(2));
    assert_eq!(out, [event(0b100, 5), event(0b100, 5), event(9, 9)]);
}

#[test]
fn a_process_only_stops_where_it_was_asked_to() {
    let mut sessions = opened(4, 10);
    assert!(breakpoint_callback(&mut sessions, Some(4), flags(1), None).is_none());
    set_breakpoint(&mut sessions, 4, flags(0b01), false);
    assert!(breakpoint_callback(&mut sessions, Some(4), flags(0b11), None).is_none());
    assert!(breakpoint_callback(&mut sessions, Some(5), flags(0b01), None).is_none());
    assert!(breakpoint_callback(&mut sessions, None, flags(0b01), None).is_none());
    assert_eq!(wait(&sessions, 4), WaitStep::Sleep);
    let stop = breakpoint_callback(&mut sessions, Some(4), flags(0b01), None).unwrap();
    assert_eq!(callback_woken(&stop, true), Some(flags(0b01)));
    assert_eq!(callback_woken(&stop, false), None);
}

#[test]
fn a_wait_ends_with_an_event() {
    let mut sessions = opened(4, 10);
    assert_eq!(wait(&sessions, 5), WaitStep::NotTraced);
    set_breakpoint(&mut sessions, 4, flags(1), true);
    assert_eq!(wait(&sessions, 4), WaitStep::Sleep);
    assert_eq!(wait_woken(false), WaitStep::Retry);
    assert_eq!(wait_woken(true), WaitStep::Finish);
    assert_eq!(wait_finish(&sessions, 4, Some(Status::Alive)), Ok(None));
    send_event(&mut sessions, Some(4), event(1, 1));
    send_event(&mut sessions, Some(4), event(1, 2));
    assert_eq!(wait(&sessions, 4), WaitStep::Finish);
    assert_eq!(wait_finish(&sessions, 4, Some(Status::Alive)), Ok(Some(event(1, 1))));
    let mut out = [event(9, 9); 1];
    assert_eq!(recv_events(&mut sessions, 4, &mut out), Some(1));
    assert_eq!(out, [event(1, 1)]);
    close_session(&mut sessions, 4);
    assert_eq!(wait(&sessions, 4), WaitStep::NotTraced);
    assert_eq!(wait_finish(&sessions, 4, Some(Status::Alive)), Ok(None));
}

#[test]
fn a_wait_for_a_process_that_is_gone_fails() {
    let mut sessions = opened(4, 10);
    set_breakpoint(&mut sessions, 4, flags(1), false);
    send_event(&mut sessions, Some(4), event(1, 1));
    let gone = Err(Error { errno: ESRCH });
    assert_eq!(wait_finish(&sessions, 4, Some(Status::Exited(0))), gone);
    assert_eq!(wait_finish(&sessions, 4, None), gone);
    assert_eq!(ESRCH, 3);
}

#[test]
fn the_end_of_a_process_alerts_its_tracer() {
    let mut sessions = opened(4, 10);
    set_breakpoint(&mut sessions, 4, flags(1), false);
    send_event(&mut sessions, Some(4), event(1, 1));
    assert_eq!(
        close_tracee(&mut sessions, 4),
        Some(vec![
            Action::Trigger { file_id: 10, flags: EVENT_READ },
            Action::NotifyTracer { pid: 4 }
        ])
    );
    assert_eq!(next_breakpoint(&sessions, Some(4)), None);
    let mut out = [event(9, 9); 1];
    assert_eq!(recv_events(&mut sessions, 4, &mut out), Some(1));
    assert_eq!(close_tracee(&mut sessions, 5), None);
}

#[test]
fn a_wider_breakpoint_hears_more() {
    let mut sessions = opened(4, 10);
    for asked in [0b010, 0b110, 0b111] {
        set_breakpoint(&mut sessions, 4, flags(asked), false);
        assert!(send_event(&mut sessions, Some(4), event(0b010, 0)).is_some());
    }
    assert!(send_event(&mut sessions, Some(4), event(0b111, 0)).is_some());
}

#[test]
fn each_event_is_read_once_and_in_order() {
    let mut sessions = opened(4, 10);
    assert!(try_new_session(&mut sessions, 5, 20));
    set_breakpoint(&mut sessions, 4, flags(0b11), false);
    set_breakpoint(&mut sessions, 5, flags(0b11), false);
    let mut read = vec![];
    let mut out = [event(9, 9); 2];
    assert!(send_event(&mut sessions, Some(4), event(1, 1)).is_some());
    assert!(send_event(&mut sessions, Some(5), event(1, 50)).is_some());
    assert!(breakpoint_callback(&mut sessions, Some(4), flags(2), Some(event(2, 2))).is_some());
    assert!(send_event(&mut sessions, Some(4), event(1, 3)).is_some());
    let count = recv_events(&mut sessions, 4, &mut out).unwrap();
    read.extend_from_slice(&out[..count]);
    assert!(send_event(&mut sessions, Some(4), event(1, 4)).is_some());
    cont(&mut sessions, 4);
    assert!(!try_new_session(&mut sessions, 4, 11));
    let count = recv_events(&mut sessions, 4, &mut out).unwrap();
    read.extend_from_slice(&out[..count]);
    assert_eq!(read, [event(1, 1), event(2, 2), event(1, 3), event(1, 4)]);
    assert_eq!(recv_events(&mut sessions, 4, &mut out), Some(0));
    assert_eq!(recv_events(&mut sessions, 5, &mut out), Some(1));
    assert_eq!(out[0], event(1, 50));
}

#[test]
fn a_stop_is_remembered_until_the_tracer_acts() {
    let mut sessions = opened(4, 10);
    set_breakpoint(&mut sessions, 4, flags(1), false);
    assert!(breakpoint_callback(&mut sessions, Some(4), flags(1), None).is_some());
    assert!(!try_new_session(&mut sessions, 4, 11));
    send_event(&mut sessions, Some(4), event(1, 1));
    let mut out = [event(9, 9); 4];
    assert_eq!(recv_events(&mut sessions, 4, &mut out), Some(2));
    assert_eq!(wait(&sessions, 4), WaitStep::Finish);
    set_breakpoint(&mut sessions, 4, flags(1), false);
    assert_eq!(wait(&sessions, 4), WaitStep::Sleep);
}

#[test]
fn a_wait_for_an_untraced_process_succeeds_at_once() {
    let sessions = opened(4, 10);
    assert_eq!(wait_returns(wait(&sessions, 5)), Some(Ok(None)));
    assert_eq!(wait_returns(wait(&sessions, 4)), None);
    assert_eq!(wait_returns(WaitStep::Retry), None);
    assert_eq!(wait_returns(WaitStep::Finish), None);
}
