//! What holds of the library as a whole.

use crate::breakpoint::{
    after_breakpoint, after_callback, breakpoint_flags, ending_actions, immediate_result,
    oldest_event, pending, stop_event, wait_step, WaitStep,
};
use crate::error::Error;
use crate::event::{bare_event, Action, ContextId, PtraceEvent};
use crate::flags::{PtraceFlags, EVENT_NONE, EVENT_READ};
use crate::memory::{access_script, MemoryAction, PageLookup, Paging};
use crate::regs::{after_clear_regs, after_set_regs, can_rebase, rebased_place};
use crate::regs::{Context, SavedRegs};
use crate::session::{
    after_new_session, after_recv, after_send, arrival_actions, closing_actions, listening,
    readable, readiness, Breakpoint, SessionData, SessionState, Sessions,
};
use vstd::arithmetic::div_mod::{
    lemma_div_is_ordered, lemma_fundamental_div_mod, lemma_hoist_over_denominator,
    lemma_mod_multiples_vanish,
};
use vstd::prelude::*;

verus! {

/// A process has at most one session: while one is open, no other can be opened,
/// and the attempt changes nothing.
pub proof fn law_one_session_at_a_time(
    sessions: Sessions,
    pid: ContextId,
    file_id: usize,
    other_file: usize,
)
    ensures
        ({
            let opened = after_new_session(sessions, pid, file_id);
            &&& opened.contains_key(pid)
            &&& after_new_session(opened, pid, other_file) == opened
        }),
{
}

/// Closing a session undoes opening it.
pub proof fn law_close_undoes_open(sessions: Sessions, pid: ContextId, file_id: usize)
    requires
        !sessions.contains_key(pid),
    ensures
        after_new_session(sessions, pid, file_id).remove(pid) == sessions,
{
}

/// Once its session is closed a process is not traced: no event of it is sent, it
/// does not stop, and no one waits for it. Whoever waited is woken.
pub proof fn law_closed_session_is_gone(sessions: Sessions, pid: ContextId, cause: PtraceFlags)
    requires
        sessions.contains_key(pid),
    ensures
        ({
            let closed = sessions.remove(pid);
            &&& !closed.contains_key(pid)
            &&& !listening(closed, Some(pid), cause)
            &&& breakpoint_flags(closed, Some(pid)) is None
            &&& wait_step(closed, pid) == WaitStep::NotTraced
        }),
        closing_actions(sessions, pid).contains(Action::NotifyTracer { pid }),
        closing_actions(sessions, pid).contains(Action::NotifyTracee { pid }),
{
    assert(closing_actions(sessions, pid)[0] == Action::NotifyTracer { pid });
    assert(closing_actions(sessions, pid)[1] == Action::NotifyTracee { pid });
}

/// In a session that was just opened nothing happens until a breakpoint is set.
pub proof fn law_new_session_is_silent(
    sessions: Sessions,
    pid: ContextId,
    file_id: usize,
    cause: PtraceFlags,
)
    requires
        !sessions.contains_key(pid),
    ensures
        ({
            let opened = after_new_session(sessions, pid, file_id);
            &&& !listening(opened, Some(pid), cause)
            &&& breakpoint_flags(opened, Some(pid)) is None
            &&& readiness(opened[pid]) == EVENT_NONE
            &&& wait_step(opened, pid) == WaitStep::Sleep
        }),
{
}

/// A tracer that has room for everything reads the events that were unread, and
/// after them the one that was sent. Nothing is left then.
pub proof fn law_read_gives_back_what_was_sent(
    sessions: Sessions,
    pid: ContextId,
    event: PtraceEvent,
    room: nat,
)
    requires
        listening(sessions, Some(pid), event.cause),
        room > sessions[pid].events.len(),
    ensures
        ({
            let sent = after_send(sessions, Some(pid), event);
            let count = readable(sent[pid], room) as int;
            &&& sent[pid].events.take(count) == sessions[pid].events.push(event)
            &&& after_recv(sent, pid, room)[pid].events == Seq::<PtraceEvent>::empty()
        }),
{
    let sent = after_send(sessions, Some(pid), event);
    let count = readable(sent[pid], room) as int;
    assert(sent[pid].events.take(count) =~= sessions[pid].events.push(event));
    assert(sent[pid].events.skip(count) =~= Seq::<PtraceEvent>::empty());
}

/// Reading in two portions gives the same events in the same order as reading at
/// once, and leaves the same ones unread.
pub proof fn law_reading_in_portions(
    sessions: Sessions,
    pid: ContextId,
    first: nat,
    second: nat,
)
    requires
        sessions.contains_key(pid),
    ensures
        ({
            let session = sessions[pid];
            let between = after_recv(sessions, pid, first);
            let whole = session.events.take(readable(session, first + second) as int);
            let head = session.events.take(readable(session, first) as int);
            let tail = between[pid].events.take(readable(between[pid], second) as int);
            &&& whole == head + tail
            &&& after_recv(between, pid, second) == after_recv(sessions, pid, first + second)
        }),
{
    let session = sessions[pid];
    let between = after_recv(sessions, pid, first);
    let whole = session.events.take(readable(session, first + second) as int);
    let head = session.events.take(readable(session, first) as int);
    let tail = between[pid].events.take(readable(between[pid], second) as int);
    assert(whole =~= head + tail);
    let in_two = after_recv(between, pid, second);
    let at_once = after_recv(sessions, pid, first + second);
    assert(in_two[pid].events =~= at_once[pid].events);
    assert(in_two =~= at_once);
}

/// The sessions after these events happened in the current process, one after the
/// other.
pub open spec fn after_sends(
    sessions: Sessions,
    current: Option<ContextId>,
    events: Seq<PtraceEvent>,
) -> Sessions
    decreases events.len(),
{
    if events.len() == 0 {
        sessions
    } else {
        after_send(
            after_sends(sessions, current, events.drop_last()),
            current,
            events.last(),
        )
    }
}

/// Of all the events that happen in a process, those that its tracer asked for
/// are queued, in the order in which they happened, and no others; nothing else
/// changes.
pub proof fn law_asked_for_events_are_queued(
    sessions: Sessions,
    pid: ContextId,
    events: Seq<PtraceEvent>,
)
    requires
        sessions.contains_key(pid),
    ensures
        after_sends(sessions, Some(pid), events) == sessions.insert(
            pid,
            SessionState {
                events: sessions[pid].events + events.filter(
                    |event: PtraceEvent| sessions[pid].asked_for(event.cause),
                ),
                ..sessions[pid]
            },
        ),
    decreases events.len(),
{
    let wanted = |event: PtraceEvent| sessions[pid].asked_for(event.cause);
    reveal(Seq::filter);
    if events.len() == 0 {
        assert(sessions[pid].events + events.filter(wanted) =~= sessions[pid].events);
        assert(sessions.insert(pid, sessions[pid]) =~= sessions);
    } else {
        law_asked_for_events_are_queued(sessions, pid, events.drop_last());
        let before = after_sends(sessions, Some(pid), events.drop_last());
        let earlier = events.drop_last().filter(wanted);
        assert(before[pid].asked_for(events.last().cause) == wanted(events.last()));
        if wanted(events.last()) {
            assert((sessions[pid].events + earlier).push(events.last()) =~= sessions[pid].events
                + earlier.push(events.last()));
        }
        assert(after_sends(sessions, Some(pid), events) =~= sessions.insert(
            pid,
            SessionState {
                events: sessions[pid].events + events.filter(wanted),
                ..sessions[pid]
            },
        ));
    }
}

/// A tracer that does not block is alerted exactly when its file becomes ready
/// for reading, and one that waits is woken for every event.
pub proof fn law_alert_marks_readiness(
    sessions: Sessions,
    pid: ContextId,
    event: PtraceEvent,
)
    requires
        listening(sessions, Some(pid), event.cause),
    ensures
        ({
            let session = sessions[pid];
            let actions = arrival_actions(pid, session);
            let alert = Action::Trigger { file_id: session.file_id, flags: EVENT_READ };
            &&& readiness(after_send(sessions, Some(pid), event)[pid]) == EVENT_READ
            &&& actions.contains(alert) <==> readiness(session) == EVENT_NONE
            &&& actions.contains(Action::NotifyTracer { pid })
        }),
{
    let session = sessions[pid];
    let actions = arrival_actions(pid, session);
    let alert = Action::Trigger { file_id: session.file_id, flags: EVENT_READ };
    assert(actions.last() == Action::NotifyTracer { pid });
    if session.events.len() == 0 {
        assert(actions[0] == alert);
    } else {
        assert(actions =~= seq![Action::NotifyTracer { pid }]);
    }
}

/// Once a process was let run on it does not stop and sends no events, whatever
/// the cause, until a breakpoint is set. What was unread can still be read.
pub proof fn law_cont_removes_the_breakpoint(
    sessions: Sessions,
    pid: ContextId,
    cause: PtraceFlags,
)
    requires
        sessions.contains_key(pid),
    ensures
        ({
            let running = after_breakpoint(sessions, pid, None);
            &&& !listening(running, Some(pid), cause)
            &&& breakpoint_flags(running, Some(pid)) is None
            &&& running[pid].events == sessions[pid].events
        }),
{
}

/// A breakpoint asks for what it was set to ask for and was not reached: the
/// tracer waits, unless it has events to read.
pub proof fn law_new_breakpoint_is_pending(
    sessions: Sessions,
    pid: ContextId,
    flags: PtraceFlags,
    cause: PtraceFlags,
)
    requires
        sessions.contains_key(pid),
    ensures
        ({
            let set = after_breakpoint(sessions, pid, pending(flags));
            &&& breakpoint_flags(set, Some(pid)) == Some(flags)
            &&& listening(set, Some(pid), cause) <==> flags.includes(cause)
            &&& set[pid].events == sessions[pid].events
            &&& wait_step(set, pid) == WaitStep::Sleep <==> sessions[pid].events.len() == 0
        }),
{
}

/// A breakpoint that asks for more gives its tracer no fewer events and stops.
pub proof fn law_wider_breakpoint_hears_more(
    sessions: Sessions,
    pid: ContextId,
    narrow: PtraceFlags,
    wide: PtraceFlags,
    cause: PtraceFlags,
)
    requires
        sessions.contains_key(pid),
        wide.includes(narrow),
        listening(after_breakpoint(sessions, pid, pending(narrow)), Some(pid), cause),
    ensures
        listening(after_breakpoint(sessions, pid, pending(wide)), Some(pid), cause),
{
    let (w, n, c) = (wide.bits, narrow.bits, cause.bits);
    assert(w & c == c) by (bit_vector)
        requires
            w & n == n,
            n & c == c,
    ;
}

/// The tracer does not sleep through an event: once it was sent, a wait is over
/// at once.
pub proof fn law_sent_event_ends_wait(sessions: Sessions, pid: ContextId, event: PtraceEvent)
    requires
        listening(sessions, Some(pid), event.cause),
    ensures
        wait_step(after_send(sessions, Some(pid), event), pid) == WaitStep::Finish,
{
}

/// The tracer does not sleep through a stop, even if it comes late: a wait is
/// over at once after the stop, and it still is when all events have been read.
/// The stop is reported as the given event, or as one of the matched cause.
pub proof fn law_stop_ends_wait(
    sessions: Sessions,
    pid: ContextId,
    match_flags: PtraceFlags,
    event: Option<PtraceEvent>,
    room: nat,
)
    requires
        listening(sessions, Some(pid), match_flags),
    ensures
        ({
            let stopped = after_callback(sessions, Some(pid), match_flags, event);
            &&& wait_step(stopped, pid) == WaitStep::Finish
            &&& wait_step(after_recv(stopped, pid, room), pid) == WaitStep::Finish
            &&& stopped[pid].events == sessions[pid].events.push(stop_event(match_flags, event))
            &&& breakpoint_flags(stopped, Some(pid)) == breakpoint_flags(sessions, Some(pid))
        }),
{
}

/// Letting a process run on after a stop makes the next wait a wait for something
/// new, once the events have been read.
pub proof fn law_cont_forgets_the_stop(sessions: Sessions, pid: ContextId, room: nat)
    requires
        sessions.contains_key(pid),
        room >= sessions[pid].events.len(),
    ensures
        wait_step(after_breakpoint(after_recv(sessions, pid, room), pid, None), pid)
            == WaitStep::Sleep,
{
}

/// The event that a wait hands out is the first that is read afterwards, and the
/// wait has one to hand out exactly when there is one to read.
pub proof fn law_waited_event_is_read_first(sessions: Sessions, pid: ContextId, room: nat)
    requires
        sessions.contains_key(pid),
        room > 0,
    ensures
        ({
            let session = sessions[pid];
            let read = session.events.take(readable(session, room) as int);
            &&& oldest_event(sessions, pid) is Some <==> read.len() > 0
            &&& oldest_event(sessions, pid) is Some <==> readiness(session) == EVENT_READ
            &&& oldest_event(sessions, pid) matches Some(event) ==> event == read[0]
        }),
{
}

/// A wait returns at once exactly for a process that is not traced, and it succeeds
/// there without an event.
pub proof fn law_untraced_wait_succeeds(sessions: Sessions, pid: ContextId)
    ensures
        immediate_result(wait_step(sessions, pid)) is Some <==> !sessions.contains_key(pid),
        immediate_result(wait_step(sessions, pid)) matches Some(result) ==> result
            == Ok::<Option<PtraceEvent>, Error>(None),
{
}

/// Everything that can happen to the sessions.
pub enum Step {
    Open { pid: ContextId, file_id: usize },
    Close { pid: ContextId },
    Send { pid: ContextId, event: PtraceEvent },
    Recv { pid: ContextId, room: nat },
    Continue { pid: ContextId },
    SetBreakpoint { pid: ContextId, flags: PtraceFlags },
    Callback { pid: ContextId, match_flags: PtraceFlags, report: Option<PtraceEvent> },
    Exit { pid: ContextId },
}

impl Step {
    /// The process that the step is about.
    pub open spec fn pid(self) -> ContextId {
        match self {
            Step::Open { pid, .. } => pid,
            Step::Close { pid } => pid,
            Step::Send { pid, .. } => pid,
            Step::Recv { pid, .. } => pid,
            Step::Continue { pid } => pid,
            Step::SetBreakpoint { pid, .. } => pid,
            Step::Callback { pid, .. } => pid,
            Step::Exit { pid } => pid,
        }
    }

    /// The sessions after the step.
    pub open spec fn apply(self, sessions: Sessions) -> Sessions {
        match self {
            Step::Open { pid, file_id } => after_new_session(sessions, pid, file_id),
            Step::Close { pid } => sessions.remove(pid),
            Step::Send { pid, event } => after_send(sessions, Some(pid), event),
            Step::Recv { pid, room } => after_recv(sessions, pid, room),
            Step::Continue { pid } => after_breakpoint(sessions, pid, None),
            Step::SetBreakpoint { pid, flags } => after_breakpoint(sessions, pid, pending(flags)),
            Step::Callback { pid, match_flags, report } => after_callback(
                sessions,
                Some(pid),
                match_flags,
                report,
            ),
            Step::Exit { pid } => after_breakpoint(sessions, pid, None),
        }
    }

    /// The events that the step reports to the tracer of its process.
    pub open spec fn reported(self, sessions: Sessions) -> Seq<PtraceEvent> {
        match self {
            Step::Send { pid, event } => if listening(sessions, Some(pid), event.cause) {
                seq![event]
            } else {
                Seq::empty()
            },
            Step::Callback { pid, match_flags, report } => if listening(
                sessions,
                Some(pid),
                match_flags,
            ) {
                seq![stop_event(match_flags, report)]
            } else {
                Seq::empty()
            },
            _ => Seq::empty(),
        }
    }

    /// The events that the tracer of the process reads in the step.
    pub open spec fn read(self, sessions: Sessions) -> Seq<PtraceEvent> {
        match self {
            Step::Recv { pid, room } => if sessions.contains_key(pid) {
                sessions[pid].events.take(readable(sessions[pid], room) as int)
            } else {
                Seq::empty()
            },
            _ => Seq::empty(),
        }
    }
}

/// The sessions after these steps.
pub open spec fn after_steps(sessions: Sessions, steps: Seq<Step>) -> Sessions
    decreases steps.len(),
{
    if steps.len() == 0 {
        sessions
    } else {
        steps.last().apply(after_steps(sessions, steps.drop_last()))
    }
}

/// All events that these steps report to the tracer of `pid`, in order.
pub open spec fn all_reported(sessions: Sessions, steps: Seq<Step>, pid: ContextId) -> Seq<
    PtraceEvent,
>
    decreases steps.len(),
{
    if steps.len() == 0 {
        Seq::empty()
    } else {
        let before = all_reported(sessions, steps.drop_last(), pid);
        if steps.last().pid() == pid {
            before + steps.last().reported(after_steps(sessions, steps.drop_last()))
        } else {
            before
        }
    }
}

/// All events that the tracer of `pid` reads in these steps, in order.
pub open spec fn all_read(sessions: Sessions, steps: Seq<Step>, pid: ContextId) -> Seq<PtraceEvent>
    decreases steps.len(),
{
    if steps.len() == 0 {
        Seq::empty()
    } else {
        let before = all_read(sessions, steps.drop_last(), pid);
        if steps.last().pid() == pid {
            before + steps.last().read(after_steps(sessions, steps.drop_last()))
        } else {
            before
        }
    }
}

/// Whatever happens while a session is open, its tracer reads each event exactly
/// once and in the order in which they were reported: what was read, and after it
/// what is still unread, is what was unread at first, and after it everything that
/// was reported since.
pub proof fn law_events_are_read_once_in_order(
    sessions: Sessions,
    steps: Seq<Step>,
    pid: ContextId,
)
    requires
        sessions.contains_key(pid),
        forall|i: int| 0 <= i < steps.len() ==> #[trigger] steps[i] != (Step::Close { pid }),
    ensures
        after_steps(sessions, steps).contains_key(pid),
        after_steps(sessions, steps)[pid].file_id == sessions[pid].file_id,
        all_read(sessions, steps, pid) + after_steps(sessions, steps)[pid].events
            == sessions[pid].events + all_reported(sessions, steps, pid),
    decreases steps.len(),
{
    if steps.len() == 0 {
        assert(all_read(sessions, steps, pid) + sessions[pid].events =~= sessions[pid].events
            + all_reported(sessions, steps, pid));
    } else {
        let earlier = steps.drop_last();
        let step = steps.last();
        assert(forall|i: int| 0 <= i < earlier.len() ==> #[trigger] earlier[i] == steps[i]);
        law_events_are_read_once_in_order(sessions, earlier, pid);
        let before = after_steps(sessions, earlier);
        let after = step.apply(before);
        assert(steps[steps.len() - 1] == step);
        if step.pid() == pid {
            assert(step.read(before) + after[pid].events =~= before[pid].events + step.reported(
                before,
            ));
            let read = all_read(sessions, earlier, pid);
            let reported = all_reported(sessions, earlier, pid);
            assert((read + step.read(before)) + after[pid].events =~= read + (step.read(before)
                + after[pid].events));
            assert((read + before[pid].events) + step.reported(before) =~= read + (
            before[pid].events + step.reported(before)));
            assert((sessions[pid].events + reported) + step.reported(before)
                =~= sessions[pid].events + (reported + step.reported(before)));
        } else {
            law_steps_keep_to_their_process(before, step, pid);
        }
    }
}

/// No step touches the session of another process.
pub proof fn law_steps_keep_to_their_process(sessions: Sessions, step: Step, other: ContextId)
    requires
        other != step.pid(),
    ensures
        step.apply(sessions).contains_key(other) <==> sessions.contains_key(other),
        sessions.contains_key(other) ==> step.apply(sessions)[other] == sessions[other],
{
}

/// Only opening and closing a session change which processes are traced, and the
/// tracer's file stays the same as long as the session is open.
pub proof fn law_session_stays_open(sessions: Sessions, step: Step, pid: ContextId)
    requires
        sessions.contains_key(pid),
        step != (Step::Close { pid }),
    ensures
        step.apply(sessions).contains_key(pid),
        step.apply(sessions)[pid].file_id == sessions[pid].file_id,
{
}

/// Without an attempt to open one, no session appears.
pub proof fn law_sessions_are_only_opened(sessions: Sessions, step: Step, pid: ContextId)
    requires
        !sessions.contains_key(pid),
        !(step is Open && step.pid() == pid),
    ensures
        !step.apply(sessions).contains_key(pid),
        step.pid() == pid ==> step.apply(sessions) == sessions,
{
    if step.pid() == pid {
        assert(step.apply(sessions) =~= sessions);
    }
}

/// Events are lost only by being read, or by closing the session: any other step
/// leaves the unread events as they are or adds one at the end.
pub proof fn law_no_event_is_lost(sessions: Sessions, step: Step, pid: ContextId)
    requires
        sessions.contains_key(pid),
        step != (Step::Close { pid }),
        !(step is Recv && step.pid() == pid),
    ensures
        ({
            let events = step.apply(sessions)[pid].events;
            ||| events == sessions[pid].events
            ||| events.len() > 0 && events.drop_last() == sessions[pid].events
        }),
{
    let events = step.apply(sessions)[pid].events;
    if events != sessions[pid].events {
        assert(events.drop_last() =~= sessions[pid].events);
    }
}

/// A breakpoint counts as reached only once the process stopped there: no other
/// step marks it.
pub proof fn law_only_a_stop_reaches(sessions: Sessions, step: Step, pid: ContextId)
    requires
        !(step is Callback && step.pid() == pid),
        step.apply(sessions).contains_key(pid),
        step.apply(sessions)[pid].breakpoint matches Some(breakpoint) && breakpoint.reached,
    ensures
        sessions.contains_key(pid),
        step.apply(sessions)[pid].breakpoint == sessions[pid].breakpoint,
{
}

/// A stop is remembered, and waits are over at once, until the tracer sets another
/// breakpoint or lets the process run on, the process ends, or the session is
/// closed.
pub proof fn law_stop_is_remembered(sessions: Sessions, step: Step, pid: ContextId)
    requires
        sessions.contains_key(pid),
        sessions[pid].breakpoint matches Some(breakpoint) && breakpoint.reached,
        step.pid() == pid ==> step is Open || step is Send || step is Recv || step is Callback,
    ensures
        step.apply(sessions).contains_key(pid),
        step.apply(sessions)[pid].breakpoint == sessions[pid].breakpoint,
        wait_step(step.apply(sessions), pid) == WaitStep::Finish,
{
}

/// A process whose registers were made available is found to have them where they
/// were saved, unless its kernel stack was set aside. When they were made
/// unavailable again, they are found nowhere.
pub proof fn law_registers_while_available(context: Context, pointer: usize)
    requires
        context.kstack is Some,
    ensures
        !context.stack_set_aside() ==> after_set_regs(context, pointer).regs_place() == Some(
            pointer,
        ),
        after_clear_regs(after_set_regs(context, pointer)).regs_place() is None,
        after_clear_regs(after_set_regs(context, pointer)) == after_clear_regs(context),
{
}

/// The registers are as far above the beginning of the new stack as they were
/// above the beginning of their own, so moving them to their own stack leaves
/// them where they are.
pub proof fn law_rebasing_keeps_the_distance(regs: SavedRegs, base: usize)
    requires
        can_rebase(Some(regs), Some(base)),
    ensures
        ({
            let moved = rebased_place(Some(regs), Some(base))->0;
            &&& base <= moved
            &&& moved - base == regs.pointer - regs.stack_base
        }),
        rebased_place(Some(regs), Some(regs.stack_base)) == Some(regs.pointer),
{
}

/// Moving the registers to another stack and back leaves them where they were.
pub proof fn law_rebasing_back(regs: SavedRegs, base: usize)
    requires
        can_rebase(Some(regs), Some(base)),
    ensures
        ({
            let moved = SavedRegs {
                stack_base: base,
                pointer: rebased_place(Some(regs), Some(base))->0,
            };
            &&& can_rebase(Some(moved), Some(regs.stack_base))
            &&& rebased_place(Some(moved), Some(regs.stack_base)) == Some(regs.pointer)
        }),
{
}

/// Every wanted byte appears in the window, at the same distance from its
/// beginning: the page of the window that holds the `i`th byte there is mapped to
/// the frame that was looked up for the page that holds the byte in the other
/// process, and the byte has the same place in both pages.
pub proof fn law_window_shows_the_memory(
    paging: Paging,
    offset: usize,
    len: usize,
    lookups: Seq<PageLookup>,
    i: int,
)
    requires
        paging.addressable(offset, len),
        paging.has_room(offset, len),
        lookups.len() == paging.page_count(offset, len),
        0 <= i < len,
    ensures
        ({
            let there = offset + i;
            let here = paging.window_address(offset) + i;
            let k = paging.page_of(there) - paging.page_of(offset as int);
            &&& 0 <= k < lookups.len()
            &&& paging.pages(offset, len)[k] == paging.page_of(there)
            &&& access_script(paging, offset, lookups)[k] matches MemoryAction::MapPage {
                page,
                frame,
                ..
            } && page == paging.page_of(here) && frame == lookups[k].frame->0
            &&& here % paging.page_size as int == there % paging.page_size as int
        }),
{
    let size = paging.page_size as int;
    let there = offset + i;
    let here = paging.window_address(offset) + i;
    let first = paging.page_of(offset as int);
    let within = offset as int % size + i;
    lemma_fundamental_div_mod(offset as int, size);
    assert(there == within + first * size) by (nonlinear_arith)
        requires
            there == offset + i,
            offset == size * first + offset as int % size,
            within == offset as int % size + i,
    ;
    assert(here == within + paging.window_page() * size);
    lemma_hoist_over_denominator(within, first, size as nat);
    lemma_hoist_over_denominator(within, paging.window_page(), size as nat);
    vstd::arithmetic::div_mod::lemma_div_pos_is_pos(within, size);
    lemma_div_is_ordered(there, offset + len - 1, size);
    assert(first * size == size * first) by (nonlinear_arith);
    assert(paging.window_page() * size == size * paging.window_page()) by (nonlinear_arith);
    lemma_mod_multiples_vanish(first, within, size);
    lemma_mod_multiples_vanish(paging.window_page(), within, size);
    let k = paging.page_of(there) - first;
    assert(k == within / size);
    assert(paging.page_of(here) == paging.window_page() + k);
    assert(paging.pages(offset, len)[k] == (first + k) as usize);
    vstd::arithmetic::div_mod::lemma_div_is_ordered_by_denominator(there, 1, size);
    vstd::arithmetic::div_mod::lemma_div_basics(there);
}

/// No page is looked up in vain: each holds one of the wanted bytes.
pub proof fn law_every_page_is_needed(paging: Paging, offset: usize, len: usize, k: int)
    requires
        paging.addressable(offset, len),
        len > 0,
        0 <= k < paging.page_count(offset, len),
    ensures
        exists|i: int|
            0 <= i < len && #[trigger] paging.page_of(offset + i) == paging.page_of(offset as int)
                + k,
{
    let size = paging.page_size as int;
    let page = paging.page_of(offset as int) + k;
    let last = offset + len - 1;
    lemma_fundamental_div_mod(offset as int, size);
    lemma_fundamental_div_mod(last, size);
    if k == 0 {
        assert(paging.page_of(offset + 0) == page);
    } else {
        let i = page * size - offset;
        assert(offset < page * size) by (nonlinear_arith)
            requires
                offset == size * (offset as int / size) + offset as int % size,
                offset as int % size < size,
                page >= offset as int / size + 1,
                size > 0,
        ;
        assert(page * size <= last) by (nonlinear_arith)
            requires
                last == size * (last / size) + last % size,
                last % size >= 0,
                page <= last / size,
                size > 0,
        ;
        vstd::arithmetic::div_mod::lemma_div_by_multiple(page, size);
        assert(paging.page_of(offset + i) == page);
    }
}

/// An access leaves nothing behind: the pages that it maps are the pages that it
/// unmaps. It uses the memory once, when all of them are mapped and none is
/// unmapped, and both changes take effect.
pub proof fn law_access_cleans_up(
    paging: Paging,
    offset: usize,
    lookups: Seq<PageLookup>,
    k: int,
)
    requires
        0 <= k < lookups.len(),
    ensures
        ({
            let script = access_script(paging, offset, lookups);
            let count = lookups.len() as int;
            &&& script.len() == 2 * count + 3
            &&& script[k] matches MemoryAction::MapPage { page, .. } && script[count + 2 + k]
                == (MemoryAction::UnmapPage { page })
            &&& script[count] == MemoryAction::Flush
            &&& script[count + 1] is Access
            &&& script.last() == MemoryAction::Flush
        }),
{
}

/// Whatever the other process may do with its pages, in the window they can be
/// written and not executed, and keep the flags that they have there.
pub proof fn law_window_is_writable(
    paging: Paging,
    offset: usize,
    lookups: Seq<PageLookup>,
    k: int,
)
    requires
        0 <= k < lookups.len(),
    ensures
        access_script(paging, offset, lookups)[k] matches MemoryAction::MapPage { flags, .. } && {
            &&& flags & paging.writable == paging.writable
            &&& flags & paging.no_execute == paging.no_execute
            &&& flags & lookups[k].flags->0 == lookups[k].flags->0
        },
{
    let (own, forbidden, writable) = (lookups[k].flags->0, paging.no_execute, paging.writable);
    assert(({
        let flags = own | (forbidden | writable);
        &&& flags & writable == writable
        &&& flags & forbidden == forbidden
        &&& flags & own == own
    })) by (bit_vector);
}

/// The bit of this number is set.
pub open spec fn has_bit(bits: u64, i: u64) -> bool {
    bits & (1u64 << i) != 0
}

/// A number none of whose lowest `n` bits is set has nothing below bit `n`.
proof fn lemma_no_low_bits(bits: u64, n: u64)
    requires
        n <= 63,
        forall|i: u64| i < 64 ==> !#[trigger] has_bit(bits, i),
    ensures
        bits & !(0xffff_ffff_ffff_ffffu64 << n) == 0,
    decreases n,
{
    if n == 0 {
        assert(bits & !(0xffff_ffff_ffff_ffffu64 << 0u64) == 0) by (bit_vector);
    } else {
        let m = (n - 1) as u64;
        lemma_no_low_bits(bits, m);
        assert(!has_bit(bits, m));
        assert(bits & !(0xffff_ffff_ffff_ffffu64 << n) == 0) by (bit_vector)
            requires
                n == m + 1,
                n <= 63,
                bits & (1u64 << m) == 0,
                bits & !(0xffff_ffff_ffff_ffffu64 << m) == 0,
        ;
    }
}

/// Flags include others exactly if each bit that is set in those is set in them.
pub proof fn law_inclusion_is_bit_by_bit(flags: PtraceFlags, wanted: PtraceFlags)
    ensures
        flags.includes(wanted) <==> forall|i: u64|
            i < 64 && #[trigger] has_bit(wanted.bits, i) ==> has_bit(flags.bits, i),
{
    let (f, w) = (flags.bits, wanted.bits);
    if flags.includes(wanted) {
        assert forall|i: u64| i < 64 && #[trigger] has_bit(w, i) implies has_bit(f, i) by {
            assert(f & (1u64 << i) != 0) by (bit_vector)
                requires
                    f & w == w,
                    w & (1u64 << i) != 0,
            ;
        }
    }
    if forall|i: u64| i < 64 && #[trigger] has_bit(w, i) ==> has_bit(f, i) {
        let missing = w & !f;
        assert forall|i: u64| i < 64 implies !#[trigger] has_bit(missing, i) by {
            if has_bit(w, i) {
                assert(has_bit(f, i));
            }
            assert(missing & (1u64 << i) == 0) by (bit_vector)
                requires
                    missing == w & !f,
                    w & (1u64 << i) != 0 ==> f & (1u64 << i) != 0,
                    i < 64,
            ;
        }
        lemma_no_low_bits(missing, 63);
        assert(!has_bit(missing, 63));
        assert(f & w == w) by (bit_vector)
            requires
                missing == w & !f,
                missing & !(0xffff_ffff_ffff_ffffu64 << 63u64) == 0,
                missing & (1u64 << 63u64) == 0,
        ;
    }
}

/// The mathematical value of a session says of each field what the field holds.
pub proof fn law_view_shows_every_field(data: SessionData)
    ensures
        data@.breakpoint == data.breakpoint,
        data@.events == data.events@,
        data@.file_id == data.file_id,
{
}

/// An event without data has its cause, and zero everywhere else.
pub proof fn law_bare_event_has_no_data(cause: PtraceFlags)
    ensures
        ({
            let event = bare_event(cause);
            &&& event.cause == cause
            &&& event.a == 0 && event.b == 0 && event.c == 0
            &&& event.d == 0 && event.e == 0 && event.f == 0
        }),
{
}

/// Opening a session adds it, with nothing in it but the tracer's file, and leaves
/// every session that was there as it was, the one of the same process too.
pub proof fn law_opening(sessions: Sessions, pid: ContextId, file_id: usize, any: ContextId)
    ensures
        ({
            let after = after_new_session(sessions, pid, file_id);
            &&& after.contains_key(any) <==> sessions.contains_key(any) || any == pid
            &&& sessions.contains_key(any) ==> after[any] == sessions[any]
            &&& !sessions.contains_key(pid) ==> {
                &&& after[pid].breakpoint is None
                &&& after[pid].events.len() == 0
                &&& after[pid].file_id == file_id
            }
        }),
{
}

/// Closing a session wakes the tracer and then the process, each once, and there is
/// nothing to do if there is no session.
pub proof fn law_closing_wakes_both_sides(sessions: Sessions, pid: ContextId)
    ensures
        ({
            let actions = closing_actions(sessions, pid);
            &&& sessions.contains_key(pid) ==> {
                &&& actions.len() == 2
                &&& actions[0] == Action::NotifyTracer { pid }
                &&& actions[1] == Action::NotifyTracee { pid }
            }
            &&& !sessions.contains_key(pid) ==> actions.len() == 0
        }),
{
}

/// A tracer listens exactly if there is a current process, it is traced, it has a
/// breakpoint, and no bit of the cause is missing from what that asks for. Whether
/// the breakpoint was reached, and what is unread, makes no difference.
pub proof fn law_listening(sessions: Sessions, pid: ContextId, cause: PtraceFlags)
    ensures
        !listening(sessions, None, cause),
        listening(sessions, Some(pid), cause) <==> {
            &&& sessions.contains_key(pid)
            &&& sessions[pid].breakpoint is Some
            &&& sessions[pid].breakpoint->0.flags.bits & cause.bits == cause.bits
        },
        sessions.contains_key(pid) ==> (sessions[pid].asked_for(cause) <==> listening(
            sessions,
            Some(pid),
            cause,
        )),
{
}

/// An event that the tracer listens for becomes the newest unread one, whole, and
/// nothing else changes in any session. Any other event changes nothing.
pub proof fn law_sending(
    sessions: Sessions,
    current: Option<ContextId>,
    event: PtraceEvent,
    any: ContextId,
)
    ensures
        ({
            let after = after_send(sessions, current, event);
            &&& after.dom() == sessions.dom()
            &&& !listening(sessions, current, event.cause) ==> after == sessions
            &&& sessions.contains_key(any) && current != Some(any) ==> after[any] == sessions[any]
            &&& current == Some(any) && listening(sessions, current, event.cause) ==> {
                &&& after[any].events == sessions[any].events.push(event)
                &&& after[any].breakpoint == sessions[any].breakpoint
                &&& after[any].file_id == sessions[any].file_id
            }
        }),
{
    assert(after_send(sessions, current, event).dom() =~= sessions.dom());
}

/// When an event arrives, the tracer's file is alerted first if there was nothing
/// unread, and only then; and the tracer of this process is woken, always and last.
pub proof fn law_arrival(pid: ContextId, session: SessionState)
    ensures
        ({
            let actions = arrival_actions(pid, session);
            let alert = Action::Trigger { file_id: session.file_id, flags: EVENT_READ };
            &&& session.events.len() == 0 ==> {
                &&& actions.len() == 2
                &&& actions[0] == alert
                &&& actions[1] == Action::NotifyTracer { pid }
                &&& session.alert().len() == 1
                &&& session.alert()[0] == alert
            }
            &&& session.events.len() > 0 ==> {
                &&& actions.len() == 1
                &&& actions[0] == Action::NotifyTracer { pid }
                &&& session.alert().len() == 0
            }
        }),
{
}

/// The tracer reads as much as fits and as there is: never more than either, and
/// less than one only because of the other.
pub proof fn law_reading_takes_what_fits(session: SessionState, room: nat)
    ensures
        readable(session, room) <= room,
        readable(session, room) <= session.events.len(),
        readable(session, room) == room || readable(session, room) == session.events.len(),
{
}

/// Reading takes away the oldest events and keeps the others in their order, each as
/// it was. Nothing else changes in any session.
pub proof fn law_receiving(sessions: Sessions, pid: ContextId, room: nat, any: ContextId)
    ensures
        ({
            let after = after_recv(sessions, pid, room);
            &&& after.dom() == sessions.dom()
            &&& sessions.contains_key(any) && any != pid ==> after[any] == sessions[any]
            &&& !sessions.contains_key(pid) ==> after == sessions
            &&& sessions.contains_key(pid) ==> {
                let unread = sessions[pid].events;
                let count = if room <= unread.len() { room as int } else { unread.len() as int };
                &&& after[pid].events.len() == unread.len() - count
                &&& forall|i: int|
                    0 <= i < unread.len() - count ==> #[trigger] after[pid].events[i] == unread[count
                        + i]
                &&& after[pid].breakpoint == sessions[pid].breakpoint
                &&& after[pid].file_id == sessions[pid].file_id
            }
        }),
{
    assert(after_recv(sessions, pid, room).dom() =~= sessions.dom());
}

/// The tracer's file is ready for reading exactly while an event is unread, and is
/// never ready for anything else.
pub proof fn law_readiness(session: SessionState)
    ensures
        session.events.len() > 0 ==> readiness(session) == EVENT_READ,
        session.events.len() == 0 ==> readiness(session) == EVENT_NONE,
        EVENT_READ != EVENT_NONE,
{
}

/// Replacing a breakpoint, or removing it, changes nothing but that: no event, no
/// file, no other session; and nothing at all if the process is not traced.
pub proof fn law_replacing_a_breakpoint(
    sessions: Sessions,
    pid: ContextId,
    breakpoint: Option<Breakpoint>,
    any: ContextId,
)
    ensures
        ({
            let after = after_breakpoint(sessions, pid, breakpoint);
            &&& after.dom() == sessions.dom()
            &&& sessions.contains_key(any) && any != pid ==> after[any] == sessions[any]
            &&& !sessions.contains_key(pid) ==> after == sessions
            &&& sessions.contains_key(pid) ==> {
                &&& after[pid].breakpoint == breakpoint
                &&& after[pid].events == sessions[pid].events
                &&& after[pid].file_id == sessions[pid].file_id
            }
        }),
{
    assert(after_breakpoint(sessions, pid, breakpoint).dom() =~= sessions.dom());
}

/// A breakpoint that is set asks for the given flags, all of them and no others, and
/// was not reached.
pub proof fn law_set_breakpoint_is_unreached(flags: PtraceFlags)
    ensures
        pending(flags) is Some,
        !pending(flags)->0.reached,
        pending(flags)->0.flags.bits == flags.bits,
{
}

/// A wait is over at once whenever there is an unread event, with or without a
/// breakpoint, and whenever a breakpoint was reached, with or without events. For a
/// traced process it sleeps otherwise, and only for one that is not traced there is
/// nothing to wait for.
pub proof fn law_waiting(sessions: Sessions, pid: ContextId)
    ensures
        !sessions.contains_key(pid) <==> wait_step(sessions, pid) == WaitStep::NotTraced,
        sessions.contains_key(pid) && sessions[pid].events.len() > 0 ==> wait_step(sessions, pid)
            == WaitStep::Finish,
        sessions.contains_key(pid) && sessions[pid].breakpoint is Some
            && sessions[pid].breakpoint->0.reached ==> wait_step(sessions, pid)
            == WaitStep::Finish,
        sessions.contains_key(pid) && sessions[pid].events.len() == 0
            && sessions[pid].breakpoint is None ==> wait_step(sessions, pid) == WaitStep::Sleep,
        sessions.contains_key(pid) && sessions[pid].events.len() == 0
            && sessions[pid].breakpoint is Some && !sessions[pid].breakpoint->0.reached
            ==> wait_step(sessions, pid) == WaitStep::Sleep,
{
}

/// Unread events outlive the breakpoint: whether the process is let run on, gets
/// another breakpoint or ends, the tracer's wait is over at once while one of them is
/// unread.
pub proof fn law_unread_events_end_waits_without_a_breakpoint(
    sessions: Sessions,
    pid: ContextId,
    breakpoint: Option<Breakpoint>,
)
    requires
        sessions.contains_key(pid),
        sessions[pid].events.len() > 0,
    ensures
        wait_step(after_breakpoint(sessions, pid, breakpoint), pid) == WaitStep::Finish,
{
}

/// A wait returns before it sleeps or looks at the process in no step but the one for
/// a process that is not traced.
pub proof fn law_only_untraced_returns_at_once(step: WaitStep)
    ensures
        immediate_result(step) is Some <==> step == WaitStep::NotTraced,
        immediate_result(step) matches Some(result) ==> result is Ok && result->Ok_0 is None,
{
}

/// A wait hands out the oldest unread event, whole, exactly if one is unread.
pub proof fn law_wait_hands_out_the_oldest(sessions: Sessions, pid: ContextId)
    ensures
        oldest_event(sessions, pid) is Some <==> sessions.contains_key(pid)
            && sessions[pid].events.len() > 0,
        oldest_event(sessions, pid) matches Some(event) ==> event == sessions[pid].events[0],
        oldest_event(sessions, pid) matches Some(event) ==> seq![event]
            + sessions[pid].events.drop_first() == sessions[pid].events,
{
    if sessions.contains_key(pid) && sessions[pid].events.len() > 0 {
        let events = sessions[pid].events;
        assert(seq![events[0]] + events.drop_first() =~= events);
    }
}

/// A stop with a given event queues exactly that event, with all its data.
pub proof fn law_stop_reports_the_given_event(
    sessions: Sessions,
    pid: ContextId,
    match_flags: PtraceFlags,
    event: PtraceEvent,
)
    requires
        listening(sessions, Some(pid), match_flags),
    ensures
        after_callback(sessions, Some(pid), match_flags, Some(event))[pid].events
            == sessions[pid].events.push(event),
{
}

/// A stop without a given event queues one that has the matched flags as its cause,
/// and no data.
pub proof fn law_stop_reports_its_cause(
    sessions: Sessions,
    pid: ContextId,
    match_flags: PtraceFlags,
)
    requires
        listening(sessions, Some(pid), match_flags),
    ensures
        after_callback(sessions, Some(pid), match_flags, None)[pid].events
            == sessions[pid].events.push(
            PtraceEvent { cause: match_flags, a: 0, b: 0, c: 0, d: 0, e: 0, f: 0 },
        ),
{
}

/// A stop marks the breakpoint as reached, keeps what it asks for, adds one event, and
/// changes nothing else in any session. Where the tracer does not listen, nothing
/// changes.
pub proof fn law_stopping(
    sessions: Sessions,
    current: Option<ContextId>,
    match_flags: PtraceFlags,
    event: Option<PtraceEvent>,
    any: ContextId,
)
    ensures
        ({
            let after = after_callback(sessions, current, match_flags, event);
            &&& after.dom() == sessions.dom()
            &&& !listening(sessions, current, match_flags) ==> after == sessions
            &&& sessions.contains_key(any) && current != Some(any) ==> after[any] == sessions[any]
            &&& current == Some(any) && listening(sessions, current, match_flags) ==> {
                &&& after[any].breakpoint is Some
                &&& after[any].breakpoint->0.reached
                &&& after[any].breakpoint->0.flags == sessions[any].breakpoint->0.flags
                &&& after[any].events.len() == sessions[any].events.len() + 1
                &&& after[any].events.drop_last() == sessions[any].events
                &&& after[any].file_id == sessions[any].file_id
            }
        }),
{
    let after = after_callback(sessions, current, match_flags, event);
    assert(after.dom() =~= sessions.dom());
    if current == Some(any) && listening(sessions, current, match_flags) {
        assert(after[any].events.drop_last() =~= sessions[any].events);
    }
}

/// A stop with an event has the same effect on what is unread as sending that event
/// has, wherever the tracer listens for both.
pub proof fn law_stop_queues_like_a_send(
    sessions: Sessions,
    pid: ContextId,
    match_flags: PtraceFlags,
    event: PtraceEvent,
)
    requires
        listening(sessions, Some(pid), match_flags),
        listening(sessions, Some(pid), event.cause),
    ensures
        after_callback(sessions, Some(pid), match_flags, Some(event))[pid].events == after_send(
            sessions,
            Some(pid),
            event,
        )[pid].events,
{
}

/// The next breakpoint of a process is the one in its session, reached or not.
pub proof fn law_next_breakpoint(sessions: Sessions, pid: ContextId)
    ensures
        breakpoint_flags(sessions, None) is None,
        !sessions.contains_key(pid) ==> breakpoint_flags(sessions, Some(pid)) is None,
        sessions.contains_key(pid) && sessions[pid].breakpoint is None ==> breakpoint_flags(
            sessions,
            Some(pid),
        ) is None,
        sessions.contains_key(pid) && sessions[pid].breakpoint is Some ==> breakpoint_flags(
            sessions,
            Some(pid),
        ) == Some(sessions[pid].breakpoint->0.flags),
{
}

/// When a traced process ends, its tracer's file is alerted and its tracer is woken,
/// in this order and whatever is unread.
pub proof fn law_ending_alerts_and_wakes_the_tracer(pid: ContextId, session: SessionState)
    ensures
        ({
            let actions = ending_actions(pid, session);
            let alert = Action::Trigger { file_id: session.file_id, flags: EVENT_READ };
            &&& actions.len() == 2
            &&& actions[0] == alert
            &&& actions[1] == Action::NotifyTracer { pid }
            &&& actions.contains(alert)
            &&& actions.contains(Action::NotifyTracer { pid })
        }),
{
    let actions = ending_actions(pid, session);
    assert(actions[0] == Action::Trigger { file_id: session.file_id, flags: EVENT_READ });
    assert(actions[1] == Action::NotifyTracer { pid });
}

/// The end of a process tells its tracer no less than an event would.
pub proof fn law_ending_is_told_like_an_event(
    pid: ContextId,
    session: SessionState,
    action: Action,
)
    requires
        arrival_actions(pid, session).contains(action),
    ensures
        ending_actions(pid, session).contains(action),
{
    law_arrival(pid, session);
    law_ending_alerts_and_wakes_the_tracer(pid, session);
}

/// Saving registers records where they are and where the kernel stack of the process
/// begins, and nothing else changes. A process without a kernel stack stays as it is.
pub proof fn law_saving_registers(context: Context, pointer: usize)
    ensures
        ({
            let after = after_set_regs(context, pointer);
            &&& context.kstack matches Some(base) ==> after.regs == Some(
                SavedRegs { stack_base: base, pointer },
            )
            &&& context.kstack is None ==> after.regs == context.regs
            &&& after.kstack == context.kstack
            &&& after.ksig == context.ksig
            &&& after.user_handled == context.user_handled
        }),
{
}

/// Registers that were saved on a kernel stack that begins at `base` are found, once
/// that stack was set aside at `copy`, at the same distance from `copy`.
pub proof fn law_saved_registers_on_a_copy(
    context: Context,
    pointer: usize,
    base: usize,
    copy: usize,
)
    requires
        context.kstack == Some(base),
        context.ksig matches Some(backup) && backup.kstack == Some(copy)
            && !context.user_handled@[backup.signum as int],
        base <= pointer,
        copy + (pointer - base) <= usize::MAX,
    ensures
        after_set_regs(context, pointer).regs_place() matches Some(place) && place == copy + (
        pointer - base),
{
}

/// Clearing registers makes them unavailable and changes nothing else.
pub proof fn law_clearing_registers(context: Context)
    ensures
        ({
            let after = after_clear_regs(context);
            &&& after.regs is None
            &&& after.kstack == context.kstack
            &&& after.ksig == context.ksig
            &&& after.user_handled == context.user_handled
        }),
{
}

/// Registers are moved exactly if there are some and there is a stack to move them
/// to, and then as far as the stacks are apart.
pub proof fn law_rebasing(regs: SavedRegs, base: usize)
    ensures
        rebased_place(None, Some(base)) is None,
        rebased_place(Some(regs), None) is None,
        rebased_place(None, None) is None,
        rebased_place(Some(regs), Some(base)) is Some,
        regs.stack_base <= regs.pointer && regs.pointer - regs.stack_base + base <= usize::MAX
            ==> rebased_place(Some(regs), Some(base))->0 + regs.stack_base == regs.pointer + base,
{
}

/// Registers can be moved unless they lie below their stack or the new place is not an
/// address; where there is nothing to move, that is always in order.
pub proof fn law_when_registers_can_be_moved(regs: SavedRegs, base: usize)
    ensures
        can_rebase(None, Some(base)),
        can_rebase(Some(regs), None),
        can_rebase(None, None),
        can_rebase(Some(regs), Some(base)) <==> regs.stack_base <= regs.pointer && regs.pointer
            - regs.stack_base + base <= usize::MAX,
{
}

/// Without a signal, or with one that the process handles itself, the registers are
/// where they were saved. With any other signal they are on the copy of the stack, and
/// nowhere if there is no copy.
pub proof fn law_where_registers_are(context: Context)
    ensures
        context.regs is None ==> context.regs_place() is None,
        context.regs matches Some(regs) ==> {
            &&& context.ksig is None ==> context.regs_place() == Some(regs.pointer)
            &&& context.ksig matches Some(backup) ==> {
                let handled = context.user_handled@[backup.signum as int];
                &&& handled ==> context.regs_place() == Some(regs.pointer)
                &&& !handled && backup.kstack is None ==> context.regs_place() is None
                &&& !handled && backup.kstack is Some && regs.stack_base <= regs.pointer
                    && regs.pointer - regs.stack_base + backup.kstack->0 <= usize::MAX ==> {
                    &&& context.regs_place() is Some
                    &&& context.regs_place()->0 - backup.kstack->0 == regs.pointer
                        - regs.stack_base
                }
            }
        },
{
}

/// Registers can be located unless the signal is unknown or they cannot be moved to
/// the copy of the stack.
pub proof fn law_when_registers_can_be_located(context: Context)
    ensures
        context.ksig is None ==> context.locatable(),
        context.ksig matches Some(backup) ==> {
            let known = backup.signum < context.user_handled@.len();
            let handled = context.user_handled@[backup.signum as int];
            &&& context.locatable() ==> known
            &&& known && handled ==> context.locatable()
            &&& known && !handled && (context.regs is None || backup.kstack is None)
                ==> context.locatable()
            &&& known && !handled && context.regs is Some && backup.kstack is Some ==> (
            context.locatable() <==> context.regs->0.stack_base <= context.regs->0.pointer
                && context.regs->0.pointer - context.regs->0.stack_base + backup.kstack->0
                <= usize::MAX)
        },
{
}

/// The page of an address begins at or below it, and ends above it.
pub proof fn law_page_holds_its_address(paging: Paging, address: int)
    requires
        paging.page_size > 0,
    ensures
        paging.page_of(address) * paging.page_size <= address,
        address < (paging.page_of(address) + 1) * paging.page_size,
{
    let size = paging.page_size as int;
    lemma_fundamental_div_mod(address, size);
    assert(paging.page_of(address) * size <= address < (paging.page_of(address) + 1) * size)
        by (nonlinear_arith)
        requires
            address == size * (address / size) + address % size,
            0 <= address % size < size,
            paging.page_of(address) == address / size,
    ;
}

/// An access can be planned unless there is no page size, or the end of the bytes is
/// not an address; and if the window's pages and the address in it are in range.
pub proof fn law_when_an_access_can_be_planned(paging: Paging, offset: usize, len: usize)
    ensures
        paging.addressable(offset, len) <==> paging.page_size > 0 && 1 <= offset + len
            <= usize::MAX,
        ({
            let size = paging.page_size as int;
            let first = paging.window as int / size;
            let count = (offset + len - 1) / size - offset as int / size + 1;
            paging.has_room(offset, len) <==> first + count <= usize::MAX && first * size
                + offset as int % size <= usize::MAX
        }),
{
}

/// The pages that are looked up follow each other, from the one that holds the first
/// byte to the one that holds the last.
pub proof fn law_pages_from_first_to_last(paging: Paging, offset: usize, len: usize, i: int)
    requires
        paging.page_size > 0,
        len > 0,
        offset + len <= usize::MAX,
    ensures
        ({
            let size = paging.page_size as int;
            let pages = paging.pages(offset, len);
            &&& pages.len() == paging.page_count(offset, len)
            &&& pages.len() > 0
            &&& pages[0] * size <= offset < (pages[0] + 1) * size
            &&& pages.last() * size <= offset + len - 1 < (pages.last() + 1) * size
            &&& 0 <= i < pages.len() ==> pages[i] == pages[0] + i
        }),
{
    let size = paging.page_size as int;
    let last = offset + len - 1;
    lemma_div_is_ordered(offset as int, last, size);
    law_page_holds_its_address(paging, offset as int);
    law_page_holds_its_address(paging, last);
    assert(last / size <= last) by (nonlinear_arith)
        requires
            size > 0,
            last >= 0,
    ;
    assert(offset as int / size >= 0) by (nonlinear_arith)
        requires
            size > 0,
            offset >= 0,
    ;
}

/// An access to no bytes looks up the page of the offset, unless that begins there.
pub proof fn law_pages_of_no_bytes(paging: Paging, offset: usize)
    requires
        paging.page_size > 0,
        offset > 0,
    ensures
        ({
            let pages = paging.pages(offset, 0);
            &&& offset % paging.page_size == 0 ==> pages.len() == 0
            &&& offset % paging.page_size != 0 ==> pages.len() == 1 && pages[0] * paging.page_size
                < offset < (pages[0] + 1) * paging.page_size
            &&& pages.len() == paging.page_count(offset, 0)
        }),
{
    let size = paging.page_size as int;
    let (quotient, rest) = (offset as int / size, offset as int % size);
    lemma_fundamental_div_mod(offset as int, size);
    assert(size * quotient == quotient * size) by (nonlinear_arith);
    law_page_holds_its_address(paging, offset as int);
    assert(quotient >= 0 && quotient <= offset) by (nonlinear_arith)
        requires
            size > 0,
            offset >= 0,
            quotient == offset as int / size,
    ;
    if rest == 0 {
        assert((quotient - 1) * size == quotient * size - size) by (nonlinear_arith);
        vstd::arithmetic::div_mod::lemma_fundamental_div_mod_converse(
            offset - 1,
            size,
            quotient - 1,
            size - 1,
        );
    } else {
        vstd::arithmetic::div_mod::lemma_fundamental_div_mod_converse(
            offset - 1,
            size,
            quotient,
            rest - 1,
        );
    }
}

/// A page is found exactly if both its frame and its flags are known.
pub proof fn law_found_means_frame_and_flags(lookup: PageLookup)
    ensures
        lookup.found() <==> lookup.frame is Some && lookup.flags is Some,
{
}

/// The memory is used at the place of the window that shows the byte at `offset`: in
/// the first page of the window, which is the first one that is mapped, and as far
/// into it as the byte is into its own page.
pub proof fn law_access_is_at_the_first_byte(
    paging: Paging,
    offset: usize,
    lookups: Seq<PageLookup>,
)
    requires
        paging.page_size > 0,
        paging.window as int / paging.page_size as int * paging.page_size + offset as int
            % paging.page_size as int <= usize::MAX,
    ensures
        ({
            let size = paging.page_size as int;
            let script = access_script(paging, offset, lookups);
            let count = lookups.len() as int;
            &&& script.len() == 2 * count + 3
            &&& script[count + 1] matches MemoryAction::Access { address } && {
                &&& address as int / size == paging.window as int / size
                &&& address as int % size == offset as int % size
                &&& address as int == paging.window_address(offset)
                &&& count > 0 ==> (script[0] matches MemoryAction::MapPage { page, .. } && page
                    == address as int / size)
            }
        }),
{
    let size = paging.page_size as int;
    let (first, within) = (paging.window as int / size, offset as int % size);
    lemma_fundamental_div_mod(paging.window as int, size);
    vstd::arithmetic::div_mod::lemma_mod_bound(offset as int, size);
    vstd::arithmetic::div_mod::lemma_div_pos_is_pos(paging.window as int, size);
    assert(first * size >= 0) by (nonlinear_arith)
        requires
            first >= 0,
            size > 0,
    ;
    vstd::arithmetic::div_mod::lemma_fundamental_div_mod_converse(
        first * size + within,
        size,
        first,
        within,
    );
    assert(first <= paging.window) by (nonlinear_arith)
        requires
            first == paging.window as int / size,
            size > 0,
            paging.window >= 0,
    ;
}

/// Each frame that was looked up is mapped to its own page of the window, one page
/// after the other, with the flags that its page has in the other process and those
/// for the window, and no others; the same page is unmapped after the access.
pub proof fn law_access_maps_each_frame(
    paging: Paging,
    offset: usize,
    lookups: Seq<PageLookup>,
    k: int,
)
    requires
        paging.page_size > 0,
        paging.window as int / paging.page_size as int + lookups.len() <= usize::MAX,
        0 <= k < lookups.len(),
        lookups[k].frame is Some,
        lookups[k].flags is Some,
    ensures
        ({
            let script = access_script(paging, offset, lookups);
            let count = lookups.len() as int;
            let first = paging.window as int / paging.page_size as int;
            &&& script[k] matches MemoryAction::MapPage { page, frame, flags } && {
                &&& page == first + k
                &&& Some(frame) == lookups[k].frame
                &&& flags == lookups[k].flags->0 | (paging.no_execute | paging.writable)
            }
            &&& script[count + 2 + k] matches MemoryAction::UnmapPage { page } && page == first + k
            &&& script[count] == MemoryAction::Flush
            &&& script[2 * count + 2] == MemoryAction::Flush
        }),
{
    vstd::arithmetic::div_mod::lemma_div_pos_is_pos(
        paging.window as int,
        paging.page_size as int,
    );
}

} // verus!
