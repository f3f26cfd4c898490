use ptrace::breakpoint::{set_breakpoint, wait, WaitStep};
use ptrace::event::{ptrace_event, Action, PtraceEvent};
use ptrace::flags::{PtraceFlags, EVENT_NONE, EVENT_READ};
use ptrace::session::{
    close_session, is_traced, recv_events, send_event, session_fevent_flags, try_new_session,
    SessionMap,
};

fn flags(bits: u64) -> PtraceFlags {
    PtraceFlags { bits }
}

fn event(cause: u64, a: usize) -> PtraceEvent {
    PtraceEvent { cause: flags(cause), a, b: 0, c: 0, d: 0, e: 0, f: 0 }
}

fn traced(pid: usize, file_id: usize, asked: u64) -> SessionMap {
    let mut sessions = SessionMap::new();
    assert!(try_new_session(&mut sessions, pid, file_id));
    assert!(set_breakpoint(&mut sessions, pid, flags(asked), false).is_empty());
    sessions
}

#[test]
fn flags_contain_each_other_bit_by_bit() {
    assert!(flags(0b110).contains(flags(0b010)));
    assert!(flags(0b110).contains(flags(0b110)));
    assert!(flags(0).contains(flags(0)));
    assert!(!flags(0b110).contains(flags(0b001)));
    assert!(!flags(0b110).contains(flags(0b011)));
}

#[test]
fn bare_event_holds_only_its_cause() {
    assert_eq!(ptrace_event(flags(5)), event(5, 0));
}

#[test]
fn a_process_has_one_session() {
    let mut sessions = SessionMap::new();
    assert!(!is_traced(&sessions, 4));
    assert!(try_new_session(&mut sessions, 4, 10));
    assert!(is_traced(&sessions, 4));
    assert!(!try_new_session(&mut sessions, 4, 11));
    assert_eq!(sessions.get(4).map(|s| s.file_id), Some(10));
    assert!(try_new_session(&mut sessions, 5, 11));
    assert!(is_traced(&sessions, 4));
}

#[test]
fn closing_undoes_opening_and_wakes_both_sides() {
    let mut sessions = SessionMap::new();
    assert!(try_new_session(&mut sessions, 4, 10));
    assert_eq!(
        close_session(&mut sessions, 4),
        vec![Action::NotifyTracer { pid: 4 }, Action::NotifyTracee { pid: 4 }]
    );
    assert!(!is_traced(&sessions, 4));
    assert_eq!(close_session(&mut sessions, 4), vec![]);
    assert!(try_new_session(&mut sessions, 4, 12));
}

#[test]
fn a_new_session_is_silent() {
    let mut sessions = SessionMap::new();
    assert!(try_new_session(&mut sessions, 4, 10));
    assert_eq!(session_fevent_flags(&sessions, 4), Some(EVENT_NONE));
    assert_eq!(session_fevent_flags(&sessions, 5), None);
    assert_eq!(send_event(&mut sessions, Some(4), event(0, 0)), None);
    assert_eq!(wait(&sessions, 4), WaitStep::Sleep);
}

#[test]
fn only_the_first_event_alerts() {
    let mut sessions = traced(4, 10, 0b11);
    assert_eq!(
        send_event(&mut sessions, Some(4), event(1, 7)),
        Some(vec![
            Action::Trigger { file_id: 10, flags: EVENT_READ },
            Action::NotifyTracer { pid: 4 }
        ])
    );
    assert_eq!(
        send_event(&mut sessions, Some(4), event(2, 8)),
        Some(vec![Action::NotifyTracer { pid: 4 }])
    );
    assert_eq!(session_fevent_flags(&sessions, 4), Some(1));
}

#[test]
fn events_that_nobody_asked_for_are_dropped() {
    let mut sessions = traced(4, 10, 0b01);
    assert_eq!(send_event(&mut sessions, Some(4), event(0b10, 0)), None);
    assert_eq!(send_event(&mut sessions, Some(4), event(0b11, 0)), None);
    assert_eq!(send_event(&mut sessions, Some(5), event(0b01, 0)), None);
    assert_eq!(send_event(&mut sessions, None, event(0b01, 0)), None);
    assert_eq!(session_fevent_flags(&sessions, 4), Some(0));
    assert!(send_event(&mut sessions, Some(4), event(0b01, 0)).is_some());
}

#[test]
fn asked_for_events_are_queued_in_order() {
    let mut sessions = traced(4, 10, 0b01);
    for (cause, a) in [(1, 1), (2, 2), (1, 3), (3, 4), (0, 5)] {
        send_event(&mut sessions, Some(4), event(cause, a));
    }
    let mut out = [event(9, 9); 5];
    assert_eq!(recv_events(&mut sessions, 4, &mut out), Some(3));
    assert_eq!(out, [event(1, 1), event(1, 3), event(0, 5), event(9, 9), event(9, 9)]);
    assert_eq!(session_fevent_flags(&sessions, 4), Some(0));
    assert_eq!(recv_events(&mut sessions, 4, &mut out), Some(0));
    assert_eq!(out[0], event(1, 1));
}

#[test]
fn reading_in_portions_keeps_the_order() {
    let mut sessions = traced(4, 10, 1);
    for a in 0..5 {
        send_event(&mut sessions, Some(4), event(1, a));
    }
    let mut first = [event(9, 9); 2];
    let mut second = [event(9, 9); 4];
    assert_eq!(recv_events(&mut sessions, 4, &mut first), Some(2));
    assert_eq!(session_fevent_flags(&sessions, 4), Some(1));
    assert_eq!(recv_events(&mut sessions, 4, &mut second), Some(3));
    assert_eq!(first, [event(1, 0), event(1, 1)]);
    assert_eq!(second, [event(1, 2), event(1, 3), event(1, 4), event(9, 9)]);
}

#[test]
fn reading_from_an_untraced_process_changes_nothing() {
    let mut sessions = traced(4, 10, 1);
    let mut out = [event(9, 9); 2];
    assert_eq!(recv_events(&mut sessions, 5, &mut out), None);
    assert_eq!(out, [event(9, 9); 2]);
    assert_eq!(recv_events(&mut sessions, 4, &mut []), Some(0));
}

#[test]
fn sessions_do_not_touch_each_other() {
    let mut sessions = traced(4, 10, 1);
    assert!(try_new_session(&mut sessions, 5, 20));
    send_event(&mut sessions, Some(4), event(1, 1));
    close_session(&mut sessions, 5);
    assert_eq!(session_fevent_flags(&sessions, 4), Some(EVENT_READ));
    assert_eq!(sessions.get(4).map(|s| s.file_id), Some(10));
}
