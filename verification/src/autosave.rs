//! The debounced autosave scheduler. It owns no timer: it tells its owner
//! which timer to cancel and which to arm, and decides, when a timer goes
//! off, whether that timer still stands for a pending save.

use crate::storage::StoreError;
use vstd::prelude::*;

verus! {

/// The quiet period after the last change, in seconds.
pub const DEBOUNCE_SECONDS: u64 = 2;

/// The handle of one armed timer. No two timers armed by one scheduler share
/// a handle.
#[derive(Clone, Copy, PartialEq, Eq, Structural, Debug)]
pub struct TimerToken {
    pub serial: u64,
}

/// The mathematical value of a scheduler: the serial of the timer that is
/// pending, if one is, and the number of timers armed so far.
pub struct SchedulerView {
    pub pending: Option<nat>,
    pub issued: nat,
}

impl SchedulerView {
    /// The scheduler that has armed no timer yet.
    pub open spec fn idle() -> SchedulerView {
        SchedulerView { pending: None, issued: 0 }
    }

    /// The pending timer is one of those armed so far.
    pub open spec fn wf(self) -> bool {
        self.pending matches Some(t) ==> t < self.issued
    }

    /// After a change: a timer with a serial never used before is pending.
    pub open spec fn changed(self) -> SchedulerView {
        SchedulerView { pending: Some(self.issued), issued: self.issued + 1 }
    }

    /// The timer `serial` going off leads to a flush: it is the pending one.
    pub open spec fn fire_flushes(self, serial: nat) -> bool {
        self.pending == Some(serial)
    }

    /// After the timer `serial` went off.
    pub open spec fn fired(self, serial: nat) -> SchedulerView {
        if self.fire_flushes(serial) {
            SchedulerView { pending: None, ..self }
        } else {
            self
        }
    }

    /// After an immediate save or a cancellation: nothing is pending.
    pub open spec fn disarmed(self) -> SchedulerView {
        SchedulerView { pending: None, ..self }
    }

    /// After `n` changes in a row.
    pub open spec fn after_changes(self, n: nat) -> SchedulerView
        decreases n,
    {
        if n == 0 {
            self
        } else {
            self.changed().after_changes((n - 1) as nat)
        }
    }

    /// After the timers of `serials` went off, in that order.
    pub open spec fn after_timers(self, serials: Seq<nat>) -> SchedulerView
        decreases serials.len(),
    {
        if serials.len() == 0 {
            self
        } else {
            self.fired(serials[0]).after_timers(serials.drop_first())
        }
    }

    /// The number of flushes that the timers of `serials` lead to.
    pub open spec fn flushes(self, serials: Seq<nat>) -> nat
        decreases serials.len(),
    {
        if serials.len() == 0 {
            0
        } else {
            (if self.fire_flushes(serials[0]) {
                1nat
            } else {
                0nat
            }) + self.fired(serials[0]).flushes(serials.drop_first())
        }
    }
}

/// What the owner does after a change: cancel the old timer, if there is
/// one, and arm a new one for the quiet period.
#[derive(Clone, Copy, PartialEq, Eq, Structural, Debug)]
pub struct Rearm {
    pub cancel: Option<TimerToken>,
    pub arm: TimerToken,
    pub delay_seconds: u64,
}

/// The debounced autosave scheduler: idle, or armed with one timer.
pub struct AutosaveScheduler {
    pending: Option<TimerToken>,
    issued: u64,
}

impl View for AutosaveScheduler {
    type V = SchedulerView;

    closed spec fn view(&self) -> SchedulerView {
        SchedulerView {
            pending: match self.pending {
                Some(t) => Some(t.serial as nat),
                None => None,
            },
            issued: self.issued as nat,
        }
    }
}

impl AutosaveScheduler {
    /// The scheduler's value is well formed.
    pub open spec fn wf(&self) -> bool {
        self@.wf()
    }

    /// An idle scheduler.
    pub fn new() -> (s: Self)
        ensures
            s@ == SchedulerView::idle(),
            s.wf(),
    {
        AutosaveScheduler { pending: None, issued: 0 }
    }

    /// A timer is pending.
    pub fn is_armed(&self) -> (b: bool)
        ensures
            b == (self@.pending is Some),
    {
        self.pending.is_some()
    }

    /// The pending timer, if there is one.
    pub fn pending(&self) -> (r: Option<TimerToken>)
        ensures
            match r {
                Some(t) => self@.pending == Some(t.serial as nat),
                None => self@.pending is None,
            },
    {
        self.pending
    }

    /// Another timer can be armed: the serials are not used up.
    pub fn can_arm(&self) -> (b: bool)
        ensures
            b == (self@.issued < u64::MAX),
    {
        self.issued < u64::MAX
    }

    /// A change was made. The scheduler becomes armed with a new timer; the
    /// timer that was pending, if any, is handed back to be cancelled, so
    /// that the quiet period starts again.
    pub fn notify_changed(&mut self) -> (r: Rearm)
        requires
            old(self)@.issued < u64::MAX,
        ensures
            final(self).wf(),
            final(self)@ == old(self)@.changed(),
            r.arm.serial == old(self)@.issued,
            r.delay_seconds == DEBOUNCE_SECONDS,
            match r.cancel {
                Some(t) => old(self)@.pending == Some(t.serial as nat),
                None => old(self)@.pending is None,
            },
    {
        let cancel = self.pending;
        let arm = TimerToken { serial: self.issued };
        self.issued = self.issued + 1;
        self.pending = Some(arm);
        Rearm { cancel, arm, delay_seconds: DEBOUNCE_SECONDS }
    }

    /// The timer `token` went off. The answer says whether to flush: only
    /// the pending timer leads to one, and then the scheduler is idle. A timer
    /// that was replaced, cancelled or has gone off before changes nothing.
    pub fn timer_fired(&mut self, token: TimerToken) -> (flush: bool)
        ensures
            flush == old(self)@.fire_flushes(token.serial as nat),
            final(self)@ == old(self)@.fired(token.serial as nat),
            old(self).wf() ==> final(self).wf(),
    {
        match self.pending {
            Some(t) => {
                if t.serial == token.serial {
                    self.pending = None;
                    true
                } else {
                    false
                }
            },
            None => false,
        }
    }

    /// An immediate save is made in place of the pending one. The timer that
    /// was pending, if any, is handed back to be cancelled; the owner then
    /// flushes at once, whatever comes back.
    pub fn save_now(&mut self) -> (cancel: Option<TimerToken>)
        ensures
            final(self)@ == old(self)@.disarmed(),
            old(self).wf() ==> final(self).wf(),
            match cancel {
                Some(t) => old(self)@.pending == Some(t.serial as nat),
                None => old(self)@.pending is None,
            },
    {
        self.pending.take()
    }

    /// A flush has come back. A failure is handed on to be shown to the
    /// user; it arms nothing and blocks nothing: the scheduler is as it was,
    /// and the next change arms it as always.
    pub fn flush_finished(&self, result: Result<(), StoreError>) -> (notice: Option<StoreError>)
        ensures
            notice == match result {
                Ok(_) => None,
                Err(e) => Some(e),
            },
    {
        match result {
            Ok(_) => None,
            Err(e) => Some(e),
        }
    }

    /// Gives the pending save up. The timer that was pending, if any, is
    /// handed back to be cancelled; where none is pending nothing happens.
    pub fn cancel(&mut self) -> (cancel: Option<TimerToken>)
        ensures
            final(self)@ == old(self)@.disarmed(),
            old(self).wf() ==> final(self).wf(),
            match cancel {
                Some(t) => old(self)@.pending == Some(t.serial as nat),
                None => old(self)@.pending is None,
            },
    {
        self.pending.take()
    }
}

/// An idle scheduler flushes for no timer, however many go off.
pub proof fn lemma_idle_ignores_timers(s: SchedulerView, serials: Seq<nat>)
    requires
        s.pending is None,
    ensures
        s.flushes(serials) == 0,
        s.after_timers(serials) == s,
    decreases serials.len(),
{
    if serials.len() > 0 {
        lemma_idle_ignores_timers(s, serials.drop_first());
    }
}

/// An armed scheduler flushes exactly once if its pending timer is among
/// those that go off, and not at all otherwise, however often and in
/// whatever order the timers go off.
pub proof fn lemma_armed_flushes_once(s: SchedulerView, serials: Seq<nat>)
    requires
        s.pending is Some,
    ensures
        s.flushes(serials) == if serials.contains(s.pending->0) {
            1nat
        } else {
            0nat
        },
        serials.contains(s.pending->0) ==> s.after_timers(serials).pending is None,
    decreases serials.len(),
{
    let t = s.pending->0;
    if serials.len() > 0 {
        let rest = serials.drop_first();
        assert(serials.contains(t) <==> serials[0] == t || rest.contains(t)) by {
            if rest.contains(t) {
                let i = choose|i: int| 0 <= i < rest.len() && rest[i] == t;
                assert(serials[i + 1] == t);
            }
            if serials.contains(t) && serials[0] != t {
                let i = choose|i: int| 0 <= i < serials.len() && serials[i] == t;
                assert(rest[i - 1] == t);
            }
        }
        if serials[0] == t {
            lemma_idle_ignores_timers(s.fired(t), rest);
        } else {
            lemma_armed_flushes_once(s, rest);
        }
    }
}

/// After `n` changes in a row, `n` at least one, the last timer armed is the
/// pending one and every timer armed before it is not.
pub proof fn lemma_changes_rearm(s: SchedulerView, n: nat)
    requires
        s.wf(),
        n > 0,
    ensures
        s.after_changes(n).wf(),
        s.after_changes(n).pending == Some((s.issued + n - 1) as nat),
        s.after_changes(n).issued == s.issued + n,
    decreases n,
{
    if n > 1 {
        lemma_changes_rearm(s.changed(), (n - 1) as nat);
    } else {
        assert(s.changed().after_changes(0) == s.changed());
    }
}

/// Debounce: `n` changes in a row arm `n` timers, and whichever of all the
/// timers ever armed go off afterwards, in whatever order and however often,
/// there is exactly one flush if the last one is among them and none
/// otherwise. A timer armed earlier never leads to a flush.
pub proof fn lemma_burst_flushes_once(s: SchedulerView, n: nat, serials: Seq<nat>)
    requires
        s.wf(),
        n > 0,
    ensures
        ({
            let last = (s.issued + n - 1) as nat;
            let armed = s.after_changes(n);
            &&& armed.flushes(serials) == if serials.contains(last) {
                1nat
            } else {
                0nat
            }
            &&& forall|t: nat| t != last ==> !armed.fire_flushes(t) && armed.fired(t) == armed
            &&& armed.fire_flushes(last) && armed.fired(last).pending is None
        }),
{
    lemma_changes_rearm(s, n);
    lemma_armed_flushes_once(s.after_changes(n), serials);
}

/// An immediate save leaves nothing pending: the one flush is the
/// immediate one, and no timer that goes off later, the cancelled one
/// included, leads to another.
pub proof fn lemma_save_now_leaves_no_flush(s: SchedulerView, serials: Seq<nat>)
    ensures
        s.disarmed().pending is None,
        s.disarmed().flushes(serials) == 0,
        s.disarmed().after_timers(serials) == s.disarmed(),
        s.disarmed().disarmed() == s.disarmed(),
{
    lemma_idle_ignores_timers(s.disarmed(), serials);
}

/// A timer that has gone off is used up: going off again, or being
/// cancelled afterwards, changes nothing and flushes nothing.
pub proof fn lemma_fired_timer_is_spent(s: SchedulerView, serial: nat)
    requires
        s.wf(),
        s.fire_flushes(serial),
    ensures
        !s.fired(serial).fire_flushes(serial),
        s.fired(serial).fired(serial) == s.fired(serial),
        s.fired(serial).disarmed() == s.fired(serial),
        s.fired(serial).changed().pending != Some(serial),
{
}

} // verus!
