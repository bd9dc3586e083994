//! What holds of every timed session, whatever its owner does to it.

use crate::flow::{FlowState, SessionEvent, SessionView};
use crate::models::FlowView;
use vstd::prelude::*;

verus! {

/// Every step keeps a session well formed, and a session that is not live
/// hands out nothing.
pub proof fn lemma_step_keeps_wf(s: SessionView, event: SessionEvent)
    requires
        s.wf(),
    ensures
        s.step(event).wf(),
        s.emits(event) is Some ==> s.live() && !s.step(event).live(),
        s.state == FlowState::Ended ==> s.step(event) == s,
{
}

/// A session never hands out more than one record: over any events at all
/// the count is at most one, and it is zero once the session is not live.
pub proof fn lemma_at_most_one_record(s: SessionView, events: Seq<SessionEvent>)
    requires
        s.wf(),
    ensures
        s.run(events).wf(),
        s.emitted(events) <= 1,
        !s.live() ==> s.emitted(events) == 0,
        s.state == FlowState::Ended ==> s.run(events) == s,
    decreases events.len(),
{
    if events.len() > 0 {
        lemma_step_keeps_wf(s, events[0]);
        lemma_at_most_one_record(s.step(events[0]), events.drop_first());
    }
}

/// Ending twice is ending once: the second end changes nothing and hands out
/// nothing, and neither does a later second of the clock.
pub proof fn lemma_end_is_idempotent(s: SessionView)
    requires
        s.wf(),
    ensures
        s.end().end() == s.end(),
        s.end().end_emits() is None,
        s.end().tick_emits() is None,
        s.live() ==> s.end_emits() is Some,
        s.emitted(seq![SessionEvent::End, SessionEvent::End]) == if s.live() {
            1nat
        } else {
            0nat
        },
{
    let events = seq![SessionEvent::End, SessionEvent::End];
    let rest = events.drop_first();
    assert(rest[0] == SessionEvent::End);
    assert(rest.drop_first().len() == 0);
    assert(s.end().emitted(rest) == 0) by {
        assert(s.end().end().emitted(rest.drop_first()) == 0);
    }
}

/// Seconds that pass while the session is not running change nothing and
/// hand out nothing.
pub proof fn lemma_ticks_skipped(s: SessionView, n: nat)
    requires
        s.state != FlowState::Running,
    ensures
        s.after_ticks(n) == s,
        s.emitted_in_ticks(n) == 0,
    decreases n,
{
    if n > 0 {
        lemma_ticks_skipped(s, (n - 1) as nat);
    }
}

/// A running session with time left counts each second once: after `n`
/// seconds, `n` have moved from the remaining to the elapsed time; the
/// second that uses up the time ends the session and hands out the one
/// record, and later seconds change nothing.
pub proof fn lemma_ticks_running(s: SessionView, n: nat)
    requires
        s.wf(),
        s.state == FlowState::Running,
        s.remaining > 0,
    ensures
        n < s.remaining ==> s.after_ticks(n) == (SessionView {
            remaining: (s.remaining - n) as nat,
            elapsed: s.elapsed + n,
            ..s
        }) && s.emitted_in_ticks(n) == 0,
        n >= s.remaining ==> s.after_ticks(n) == (SessionView {
            remaining: 0,
            elapsed: s.elapsed + s.remaining,
            ..s.ended()
        }) && s.emitted_in_ticks(n) == 1,
    decreases n,
{
    if n > 0 {
        if s.remaining == 1 {
            lemma_ticks_skipped(s.tick(), (n - 1) as nat);
        } else {
            lemma_ticks_running(s.tick(), (n - 1) as nat);
        }
    }
}

/// A session started for `m` minutes and never paused ends exactly once, at
/// its second number `60 * m`, with that many seconds elapsed and none
/// remaining; the record it hands out carries that duration and, as nothing
/// was written, no text. Before that
/// second it runs, and the seconds so far are the elapsed time.
pub proof fn lemma_uninterrupted_run(flow: FlowView, n: nat)
    requires
        flow.duration_minutes > 0,
    ensures
        ({
            let s = SessionView::started(flow);
            let total = 60 * flow.duration_minutes as nat;
            &&& n < total ==> s.after_ticks(n).state == FlowState::Running && s.after_ticks(
                n,
            ).elapsed == n && s.after_ticks(n).remaining == total - n && s.emitted_in_ticks(n)
                == 0
            &&& n >= total ==> s.after_ticks(n).state == FlowState::Ended && s.after_ticks(
                n,
            ).elapsed == total && s.after_ticks(n).remaining == 0 && s.emitted_in_ticks(n) == 1
            &&& s.after_ticks((total - 1) as nat).tick_emits() == Some(
                FlowView { content: Seq::empty(), actual_duration_seconds: total as u64, ..flow },
            )
        }),
{
    let s = SessionView::started(flow);
    let total = 60 * flow.duration_minutes as nat;
    lemma_ticks_running(s, n);
    lemma_ticks_running(s, (total - 1) as nat);
}

/// A session started for no time at all ends at its first second, with
/// nothing elapsed.
pub proof fn lemma_empty_run(flow: FlowView, n: nat)
    requires
        flow.duration_minutes == 0,
        n > 0,
    ensures
        SessionView::started(flow).after_ticks(n).state == FlowState::Ended,
        SessionView::started(flow).after_ticks(n).elapsed == 0,
        SessionView::started(flow).emitted_in_ticks(n) == 1,
{
    let s = SessionView::started(flow);
    lemma_ticks_skipped(s.tick(), (n - 1) as nat);
}

/// Pausing costs wall time and no session time: run `a` seconds, pause for
/// `k` seconds, resume and run `b` more. Then `a + b` seconds have elapsed,
/// whatever `k` is, though `a + k + b` seconds of the clock have passed; the
/// session ends, once, exactly when `a + b` reaches the requested time.
pub proof fn lemma_paused_run(flow: FlowView, a: nat, k: nat, b: nat)
    requires
        a < 60 * flow.duration_minutes as nat,
        a + b <= 60 * flow.duration_minutes as nat,
    ensures
        ({
            let total = 60 * flow.duration_minutes as nat;
            let s = SessionView::started(flow);
            let paused = s.after_ticks(a).toggle_pause();
            let resumed = paused.after_ticks(k).toggle_pause();
            let last = resumed.after_ticks(b);
            &&& paused.state == FlowState::Paused
            &&& paused.after_ticks(k) == paused
            &&& last.elapsed == a + b
            &&& last.remaining == total - (a + b)
            &&& last.state == if a + b == total {
                FlowState::Ended
            } else {
                FlowState::Running
            }
            &&& s.emitted_in_ticks(a) + paused.emitted_in_ticks(k) + resumed.emitted_in_ticks(b)
                == if a + b == total {
                1nat
            } else {
                0nat
            }
        }),
{
    let s = SessionView::started(flow);
    lemma_ticks_running(s, a);
    let paused = s.after_ticks(a).toggle_pause();
    lemma_ticks_skipped(paused, k);
    let resumed = paused.after_ticks(k).toggle_pause();
    lemma_ticks_running(resumed, b);
}

} // verus!
