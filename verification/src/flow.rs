//! The timed free-writing session: a countdown that can be paused, that ends
//! by itself or by hand, and that hands out its record exactly once.

use crate::clock::{random_id, system_now};
use crate::models::{count_words, Flow, FlowView};
use crate::text::{push_two_digits, token_count, two_digits};
use vstd::prelude::*;
use vstd::string::StringExecFns;

verus! {

/// Where a session stands.
#[derive(Clone, Copy, PartialEq, Eq, Structural, Debug)]
pub enum FlowState {
    Idle,
    Running,
    Paused,
    Ended,
}

/// What the session's owner can do to it.
pub enum SessionEvent {
    /// One second of the clock has passed.
    Tick,
    /// The writer paused or resumed.
    TogglePause,
    /// The writer ended the session by hand.
    End,
    /// The editor reports its whole text.
    Text(Seq<char>),
    /// The session's surface is torn down.
    Dispose,
}

/// The mathematical value of a session.
pub struct SessionView {
    pub state: FlowState,
    /// The record that the session will hand out; `None` before the start and
    /// once it is handed out or given up.
    pub flow: Option<FlowView>,
    pub text: Seq<char>,
    pub remaining: nat,
    pub elapsed: nat,
}

impl SessionView {
    /// The session before its start.
    pub open spec fn idle() -> SessionView {
        SessionView {
            state: FlowState::Idle,
            flow: None,
            text: Seq::empty(),
            remaining: 0,
            elapsed: 0,
        }
    }

    /// The running session that has just been started for `flow`.
    pub open spec fn started(flow: FlowView) -> SessionView {
        SessionView {
            state: FlowState::Running,
            flow: Some(flow),
            text: Seq::empty(),
            remaining: 60 * flow.duration_minutes as nat,
            elapsed: 0,
        }
    }

    /// The clock is live: the session is running or paused.
    pub open spec fn live(self) -> bool {
        self.state == FlowState::Running || self.state == FlowState::Paused
    }

    /// A live session holds its record, and the two counters add up to the
    /// requested duration; a session that is not live holds no record.
    pub open spec fn wf(self) -> bool {
        &&& self.live() <==> self.flow is Some
        &&& self.flow matches Some(f) ==> self.remaining + self.elapsed == 60
            * f.duration_minutes as nat
        &&& self.state == FlowState::Idle ==> self.remaining == 0 && self.elapsed == 0
    }

    /// The record as it is handed out after `elapsed` seconds.
    pub open spec fn record(self, elapsed: nat) -> FlowView
        recommends
            self.flow is Some,
    {
        FlowView {
            content: self.text,
            actual_duration_seconds: elapsed as u64,
            ..self.flow->0
        }
    }

    /// The session once it has ended: it holds no record any more.
    pub open spec fn ended(self) -> SessionView {
        SessionView { state: FlowState::Ended, flow: None, ..self }
    }

    /// The session after one second of the clock.
    pub open spec fn tick(self) -> SessionView {
        if self.state != FlowState::Running {
            self
        } else if self.remaining == 0 {
            self.ended()
        } else if self.remaining == 1 {
            SessionView {
                remaining: 0,
                elapsed: self.elapsed + 1,
                ..self.ended()
            }
        } else {
            SessionView {
                remaining: (self.remaining - 1) as nat,
                elapsed: self.elapsed + 1,
                ..self
            }
        }
    }

    /// The record that one second of the clock hands out, if it ends the
    /// session.
    pub open spec fn tick_emits(self) -> Option<FlowView> {
        if self.state == FlowState::Running && self.remaining <= 1 {
            Some(self.record(self.elapsed + self.remaining))
        } else {
            None
        }
    }

    /// The session after a pause or a resumption: a running session is
    /// paused, a paused one runs, any other stays as it is.
    pub open spec fn toggle_pause(self) -> SessionView {
        match self.state {
            FlowState::Running => SessionView { state: FlowState::Paused, ..self },
            FlowState::Paused => SessionView { state: FlowState::Running, ..self },
            _ => self,
        }
    }

    /// The session after a manual end.
    pub open spec fn end(self) -> SessionView {
        if self.live() {
            self.ended()
        } else {
            self
        }
    }

    /// The record that a manual end hands out.
    pub open spec fn end_emits(self) -> Option<FlowView> {
        if self.live() {
            Some(self.record(self.elapsed))
        } else {
            None
        }
    }

    /// The session after the editor reported `text`: a live session takes
    /// it, any other stays as it is.
    pub open spec fn with_text(self, text: Seq<char>) -> SessionView {
        if self.live() {
            SessionView { text, ..self }
        } else {
            self
        }
    }

    /// The session after `event`.
    pub open spec fn step(self, event: SessionEvent) -> SessionView {
        match event {
            SessionEvent::Tick => self.tick(),
            SessionEvent::TogglePause => self.toggle_pause(),
            SessionEvent::End => self.end(),
            SessionEvent::Text(t) => self.with_text(t),
            SessionEvent::Dispose => self.end(),
        }
    }

    /// The record that `event` hands out, if it hands one out.
    pub open spec fn emits(self, event: SessionEvent) -> Option<FlowView> {
        match event {
            SessionEvent::Tick => self.tick_emits(),
            SessionEvent::End => self.end_emits(),
            _ => None,
        }
    }

    /// The session after the events of `events`, in order.
    pub open spec fn run(self, events: Seq<SessionEvent>) -> SessionView
        decreases events.len(),
    {
        if events.len() == 0 {
            self
        } else {
            self.step(events[0]).run(events.drop_first())
        }
    }

    /// The number of records handed out over the events of `events`.
    pub open spec fn emitted(self, events: Seq<SessionEvent>) -> nat
        decreases events.len(),
    {
        if events.len() == 0 {
            0
        } else {
            (if self.emits(events[0]) is Some {
                1nat
            } else {
                0nat
            }) + self.step(events[0]).emitted(events.drop_first())
        }
    }

    /// The session after `n` seconds of the clock.
    pub open spec fn after_ticks(self, n: nat) -> SessionView
        decreases n,
    {
        if n == 0 {
            self
        } else {
            self.tick().after_ticks((n - 1) as nat)
        }
    }

    /// The number of records handed out over `n` seconds of the clock.
    pub open spec fn emitted_in_ticks(self, n: nat) -> nat
        decreases n,
    {
        if n == 0 {
            0
        } else {
            (if self.tick_emits() is Some {
                1nat
            } else {
                0nat
            }) + self.tick().emitted_in_ticks((n - 1) as nat)
        }
    }
}

/// What the owner shows after a second that did not end the session.
#[derive(Clone, Copy, PartialEq, Eq, Structural, Debug)]
pub struct FlowTick {
    pub remaining_seconds: u64,
    pub elapsed_seconds: u64,
    pub word_count: usize,
}

/// What one second of the clock did.
#[derive(Debug, PartialEq, Eq)]
pub enum TickOutcome {
    /// The session is not running: nothing moved.
    Skipped,
    /// One second was counted and time is left.
    Advanced(FlowTick),
    /// The time is up: the clock is to be stopped and the record stored.
    Ended(Flow),
}

/// A timed writing session.
pub struct FlowSession {
    state: FlowState,
    flow: Option<Flow>,
    text: String,
    remaining_seconds: u64,
    elapsed_seconds: u64,
}

impl View for FlowSession {
    type V = SessionView;

    closed spec fn view(&self) -> SessionView {
        SessionView {
            state: self.state,
            flow: match self.flow {
                Some(f) => Some(f@),
                None => None,
            },
            text: self.text@,
            remaining: self.remaining_seconds as nat,
            elapsed: self.elapsed_seconds as nat,
        }
    }
}

impl FlowSession {
    /// The session's value is well formed.
    pub open spec fn wf(&self) -> bool {
        self@.wf()
    }

    /// A session that has not started.
    pub fn new() -> (s: Self)
        ensures
            s@ == SessionView::idle(),
            s.wf(),
    {
        FlowSession {
            state: FlowState::Idle,
            flow: None,
            text: String::new(),
            remaining_seconds: 0,
            elapsed_seconds: 0,
        }
    }

    /// A running session for the record `flow`, with the whole requested
    /// time ahead of it.
    pub fn start_with(flow: Flow) -> (s: Self)
        ensures
            s@ == SessionView::started(flow@),
            s.wf(),
    {
        let remaining: u64 = 60 * (flow.duration_minutes as u64);
        FlowSession {
            state: FlowState::Running,
            flow: Some(flow),
            text: String::new(),
            remaining_seconds: remaining,
            elapsed_seconds: 0,
        }
    }

    /// A running session of `duration_minutes` whose record has a fresh
    /// identity and the clock's reading as its creation time.
    pub fn start(duration_minutes: u32) -> (s: Self)
        ensures
            s.wf(),
            s@.flow is Some,
            s@ == SessionView::started(
                FlowView::fresh(s@.flow->0.id, duration_minutes, s@.flow->0.created_at),
            ),
    {
        FlowSession::start_with(Flow::with(random_id(), duration_minutes, system_now()))
    }

    /// Where the session stands.
    pub fn state(&self) -> (r: FlowState)
        ensures
            r == self@.state,
    {
        self.state
    }

    /// The seconds that are left.
    pub fn remaining_seconds(&self) -> (r: u64)
        ensures
            r == self@.remaining,
    {
        self.remaining_seconds
    }

    /// The seconds that were counted.
    pub fn elapsed_seconds(&self) -> (r: u64)
        ensures
            r == self@.elapsed,
    {
        self.elapsed_seconds
    }

    /// The session is paused.
    pub fn is_paused(&self) -> (r: bool)
        ensures
            r == (self@.state == FlowState::Paused),
    {
        self.state == FlowState::Paused
    }

    /// The one-second clock has to be kept alive: the session is running or
    /// paused. Once this is false the clock must be stopped.
    pub fn clock_running(&self) -> (r: bool)
        ensures
            r == self@.live(),
    {
        self.state == FlowState::Running || self.state == FlowState::Paused
    }

    /// The words written so far.
    pub fn word_count(&self) -> (n: usize)
        ensures
            n == token_count(self@.text),
    {
        count_words(self.text.as_str())
    }

    /// The counters and the live word count.
    pub fn snapshot(&self) -> (t: FlowTick)
        ensures
            t.remaining_seconds == self@.remaining,
            t.elapsed_seconds == self@.elapsed,
            t.word_count == token_count(self@.text),
    {
        FlowTick {
            remaining_seconds: self.remaining_seconds,
            elapsed_seconds: self.elapsed_seconds,
            word_count: self.word_count(),
        }
    }

    /// The remaining time as whole minutes and seconds, each in at least two
    /// digits.
    pub fn timer_label(&self) -> (r: String)
        ensures
            r@ == two_digits(self@.remaining / 60) + seq![':'] + two_digits(self@.remaining % 60),
    {
        let mut out = String::new();
        push_two_digits(&mut out, self.remaining_seconds / 60);
        out.append(":");
        proof {
            reveal_strlit(":");
            assert(":"@ =~= seq![':']);
        }
        push_two_digits(&mut out, self.remaining_seconds % 60);
        assert(out@ =~= two_digits(self@.remaining / 60) + seq![':'] + two_digits(
            self@.remaining % 60,
        ));
        out
    }

    /// Takes the editor's whole text; ignored unless the session is live.
    pub fn update_text(&mut self, text: &str)
        ensures
            final(self)@ == old(self)@.with_text(text@),
            old(self).wf() ==> final(self).wf(),
    {
        if self.clock_running() {
            self.text = text.to_owned();
        }
    }

    fn emit(&mut self) -> (r: Option<Flow>)
        requires
            old(self).wf(),
        ensures
            final(self)@ == old(self)@.ended(),
            match r {
                Some(f) => old(self)@.flow is Some && f@ == old(self)@.record(old(self)@.elapsed),
                None => old(self)@.flow is None,
            },
    {
        self.state = FlowState::Ended;
        match self.flow.take() {
            Some(mut flow) => {
                flow.content = self.text.clone();
                flow.actual_duration_seconds = self.elapsed_seconds;
                Some(flow)
            },
            None => None,
        }
    }

    /// One second of the clock. A paused, unstarted or ended session skips
    /// it. A running one counts it, and ends with its record when no time is
    /// left.
    pub fn tick(&mut self) -> (r: TickOutcome)
        requires
            old(self).wf(),
        ensures
            final(self).wf(),
            final(self)@ == old(self)@.tick(),
            match r {
                TickOutcome::Skipped => old(self)@.state != FlowState::Running,
                TickOutcome::Advanced(t) => old(self)@.state == FlowState::Running && old(
                    self,
                )@.tick_emits() is None && t.remaining_seconds == final(self)@.remaining
                    && t.elapsed_seconds == final(self)@.elapsed && t.word_count == token_count(
                    final(self)@.text,
                ),
                TickOutcome::Ended(f) => old(self)@.tick_emits() == Some(f@),
            },
    {
        if self.state != FlowState::Running {
            return TickOutcome::Skipped;
        }
        if self.remaining_seconds > 0 {
            self.remaining_seconds = self.remaining_seconds - 1;
            self.elapsed_seconds = self.elapsed_seconds + 1;
            if self.remaining_seconds > 0 {
                return TickOutcome::Advanced(self.snapshot());
            }
        }
        match self.emit() {
            Some(f) => TickOutcome::Ended(f),
            None => TickOutcome::Skipped,
        }
    }

    /// Pauses a running session and resumes a paused one; the counters stay.
    pub fn toggle_pause(&mut self)
        ensures
            final(self)@ == old(self)@.toggle_pause(),
            old(self).wf() ==> final(self).wf(),
    {
        match self.state {
            FlowState::Running => {
                self.state = FlowState::Paused;
            },
            FlowState::Paused => {
                self.state = FlowState::Running;
            },
            _ => {},
        }
    }

    /// Ends a live session by hand and hands out its record; on a session
    /// that is not live nothing happens and nothing is handed out.
    pub fn end(&mut self) -> (r: Option<Flow>)
        requires
            old(self).wf(),
        ensures
            final(self).wf(),
            final(self)@ == old(self)@.end(),
            match r {
                Some(f) => old(self)@.end_emits() == Some(f@),
                None => old(self)@.end_emits() is None,
            },
    {
        if self.clock_running() {
            self.emit()
        } else {
            None
        }
    }

    /// Gives a live session up without a record, as when its surface is torn
    /// down: afterwards the clock is not to run.
    pub fn dispose(&mut self)
        requires
            old(self).wf(),
        ensures
            final(self).wf(),
            final(self)@ == old(self)@.end(),
            !final(self)@.live(),
    {
        if self.clock_running() {
            self.state = FlowState::Ended;
            self.flow = None;
        }
    }
}

} // verus!
