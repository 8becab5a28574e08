//! The timer session: its three states and the time banked across pauses.

use vstd::prelude::*;

verus! {

/// Nanoseconds in one second.
pub const NANOS_PER_SEC: u64 = 1_000_000_000;

/// Length of one session: thirty minutes, in nanoseconds.
pub const SESSION_NANOS: u64 = 1_800_000_000_000;

/// What the timer is doing.
#[derive(Clone, Copy, Debug, PartialEq, Eq, Structural)]
pub enum TimerState {
    /// Nothing has accumulated yet.
    Idle,
    /// Time is accumulating from the resume anchor.
    Running,
    /// Accumulation is frozen.
    Paused,
}

/// Mathematical content of a session.
pub struct SessionView {
    pub state: TimerState,
    /// Instant at which the current run began; present only while running.
    pub resume_anchor: Option<u64>,
    /// Time banked by all earlier runs.
    pub accumulated: u64,
    /// Length of the countdown.
    pub target_duration: u64,
}

/// A share of the countdown, kept as the exact ratio `done / whole`.
#[derive(Clone, Copy, Debug, PartialEq, Eq, Structural)]
pub struct Progress {
    /// Time counted, never more than `whole` when it comes from a session.
    pub done: u64,
    /// Length of the countdown.
    pub whole: u64,
}

impl Progress {
    /// The ratio lies between zero and one.
    pub open spec fn in_unit_range(self) -> bool {
        0 <= self.done <= self.whole && self.whole > 0
    }

    /// The ratio has reached one.
    pub open spec fn is_full(self) -> bool {
        self.done >= self.whole
    }

    /// Whether the ratio has reached one.
    pub fn is_complete(&self) -> (full: bool)
        ensures
            full == self.is_full(),
    {
        self.done >= self.whole
    }
}

/// Time from `anchor` to `now`; zero when `now` lies before `anchor`.
pub open spec fn since(anchor: u64, now: u64) -> nat {
    if now >= anchor {
        (now - anchor) as nat
    } else {
        0
    }
}

/// The count `n` as a `u64`, held at `u64::MAX` when it no longer fits.
pub open spec fn capped(n: nat) -> u64 {
    if n <= u64::MAX {
        n as u64
    } else {
        u64::MAX
    }
}

impl SessionView {
    /// The relations that every session keeps between its fields.
    pub open spec fn wf(self) -> bool {
        &&& self.resume_anchor is Some <==> self.state == TimerState::Running
        &&& self.state == TimerState::Idle ==> self.accumulated == 0
        &&& self.target_duration == SESSION_NANOS
    }

    /// The session as it is created: idle, with nothing banked.
    pub open spec fn initial() -> SessionView {
        SessionView {
            state: TimerState::Idle,
            resume_anchor: None,
            accumulated: 0,
            target_duration: SESSION_NANOS,
        }
    }

    /// Time counted so far, as seen at `now`: nothing while idle, the banked
    /// time while paused, and the banked time plus the current run while
    /// running. A clock value before the anchor adds nothing, and a sum too
    /// large for a `u64` stays at `u64::MAX`.
    pub open spec fn elapsed_at(self, now: u64) -> u64 {
        match self.state {
            TimerState::Idle => 0,
            TimerState::Paused => self.accumulated,
            TimerState::Running => match self.resume_anchor {
                Some(anchor) => capped(self.accumulated as nat + since(anchor, now)),
                None => self.accumulated,
            },
        }
    }

    /// Time still to go at `now`; zero once the target is reached.
    pub open spec fn remaining_at(self, now: u64) -> u64 {
        if self.elapsed_at(now) >= self.target_duration {
            0
        } else {
            (self.target_duration - self.elapsed_at(now)) as u64
        }
    }

    /// Share of the countdown that is done at `now`: elapsed time over the
    /// target, held at one once the target is reached.
    pub open spec fn progress_at(self, now: u64) -> Progress {
        Progress {
            done: if self.elapsed_at(now) >= self.target_duration {
                self.target_duration
            } else {
                self.elapsed_at(now)
            },
            whole: self.target_duration,
        }
    }

    /// Whether the countdown has run its full length at `now`.
    pub open spec fn complete_at(self, now: u64) -> bool {
        self.elapsed_at(now) >= self.target_duration
    }

    /// The session after `start` at `now`: an idle session begins a run from
    /// zero, a paused one resumes with its banked time, a running one is
    /// left alone.
    pub open spec fn started(self, now: u64) -> SessionView {
        match self.state {
            TimerState::Idle => SessionView {
                state: TimerState::Running,
                resume_anchor: Some(now),
                accumulated: 0,
                ..self
            },
            TimerState::Paused => SessionView {
                state: TimerState::Running,
                resume_anchor: Some(now),
                ..self
            },
            TimerState::Running => self,
        }
    }

    /// The session after `pause` at `now`: a running session banks the
    /// current run and drops its anchor, any other is left alone.
    pub open spec fn paused(self, now: u64) -> SessionView {
        if self.state == TimerState::Running {
            SessionView {
                state: TimerState::Paused,
                resume_anchor: None,
                accumulated: self.elapsed_at(now),
                ..self
            }
        } else {
            self
        }
    }

    /// The session after `reset`: idle, nothing banked, no anchor.
    pub open spec fn cleared(self) -> SessionView {
        SessionView {
            state: TimerState::Idle,
            resume_anchor: None,
            accumulated: 0,
            ..self
        }
    }

    /// The session after the completion check at `now`: a running session
    /// that has reached its target goes back to idle, any other is left
    /// alone.
    pub open spec fn polled(self, now: u64) -> SessionView {
        if self.state == TimerState::Running && self.complete_at(now) {
            self.cleared()
        } else {
            self
        }
    }
}

/// One countdown session.
pub struct PomodoroApp {
    state: TimerState,
    start_time: Option<u64>,
    elapsed_when_paused: u64,
    total_duration: u64,
}

impl View for PomodoroApp {
    type V = SessionView;

    closed spec fn view(&self) -> SessionView {
        SessionView {
            state: self.state,
            resume_anchor: self.start_time,
            accumulated: self.elapsed_when_paused,
            target_duration: self.total_duration,
        }
    }
}

impl PomodoroApp {
    #[verifier::type_invariant]
    spec fn inv(self) -> bool {
        self@.wf()
    }

    /// A fresh session: idle, nothing banked, thirty minutes to go.
    pub fn new() -> (app: Self)
        ensures
            app@ == SessionView::initial(),
            app@.wf(),
    {
        PomodoroApp {
            state: TimerState::Idle,
            start_time: None,
            elapsed_when_paused: 0,
            total_duration: SESSION_NANOS,
        }
    }

    /// Time counted so far, as seen at `now`. Never fails: the count stops
    /// at `u64::MAX` nanoseconds, some 584 years.
    pub fn get_elapsed_time(&self, now: u64) -> (elapsed: u64)
        ensures
            elapsed == self@.elapsed_at(now),
            self@.wf(),
    {
        proof {
            use_type_invariant(self);
        }
        match self.state {
            TimerState::Idle => 0,
            TimerState::Running => {
                if let Some(start) = self.start_time {
                    self.elapsed_when_paused.saturating_add(now.saturating_sub(start))
                } else {
                    self.elapsed_when_paused
                }
            },
            TimerState::Paused => self.elapsed_when_paused,
        }
    }

    /// Starts or resumes the countdown at `now`; does nothing while running.
    pub fn start_timer(&mut self, now: u64)
        ensures
            final(self)@ == old(self)@.started(now),
            final(self)@.wf(),
    {
        proof {
            use_type_invariant(&*self);
        }
        match self.state {
            TimerState::Idle => {
                *self = PomodoroApp {
                    state: TimerState::Running,
                    start_time: Some(now),
                    elapsed_when_paused: 0,
                    total_duration: self.total_duration,
                };
            },
            TimerState::Paused => {
                *self = PomodoroApp {
                    state: TimerState::Running,
                    start_time: Some(now),
                    elapsed_when_paused: self.elapsed_when_paused,
                    total_duration: self.total_duration,
                };
            },
            TimerState::Running => {},
        }
    }

    /// Freezes a running countdown at `now`, banking the current run; does
    /// nothing while idle or paused.
    pub fn pause_timer(&mut self, now: u64)
        ensures
            final(self)@ == old(self)@.paused(now),
            final(self)@.wf(),
    {
        proof {
            use_type_invariant(&*self);
        }
        if self.state == TimerState::Running {
            let banked: u64 = self.get_elapsed_time(now);
            *self = PomodoroApp {
                state: TimerState::Paused,
                start_time: None,
                elapsed_when_paused: banked,
                total_duration: self.total_duration,
            };
        }
    }

    /// Returns to idle from any state and forgets the banked time.
    pub fn reset_timer(&mut self)
        ensures
            final(self)@ == old(self)@.cleared(),
            final(self)@.wf(),
    {
        proof {
            use_type_invariant(&*self);
        }
        *self = PomodoroApp {
            state: TimerState::Idle,
            start_time: None,
            elapsed_when_paused: 0,
            total_duration: self.total_duration,
        };
    }

    /// Share of the countdown that is done at `now`, between zero and one.
    pub fn get_progress(&self, now: u64) -> (progress: Progress)
        ensures
            progress == self@.progress_at(now),
            progress.in_unit_range(),
            progress.is_full() <==> self@.complete_at(now),
    {
        proof {
            use_type_invariant(self);
        }
        let elapsed: u64 = self.get_elapsed_time(now);
        if elapsed >= self.total_duration {
            Progress { done: self.total_duration, whole: self.total_duration }
        } else {
            Progress { done: elapsed, whole: self.total_duration }
        }
    }

    /// Time still to go at `now`; zero once the target is reached.
    pub fn remaining(&self, now: u64) -> (left: u64)
        ensures
            left == self@.remaining_at(now),
            left <= self@.target_duration,
    {
        let elapsed: u64 = self.get_elapsed_time(now);
        if elapsed >= self.total_duration {
            0
        } else {
            self.total_duration - elapsed
        }
    }

    /// The completion check, made once per frame: a running countdown that
    /// has reached its target at `now` goes back to idle without a signal.
    pub fn poll(&mut self, now: u64)
        ensures
            final(self)@ == old(self)@.polled(now),
            final(self)@.wf(),
    {
        proof {
            use_type_invariant(&*self);
        }
        if self.state == TimerState::Running && self.get_elapsed_time(now) >= self.total_duration {
            self.reset_timer();
        }
    }

    /// The current state.
    pub fn state(&self) -> (state: TimerState)
        ensures
            state == self@.state,
            self@.wf(),
    {
        proof {
            use_type_invariant(self);
        }
        self.state
    }

    /// The instant at which the current run began, while running.
    pub fn resume_anchor(&self) -> (anchor: Option<u64>)
        ensures
            anchor == self@.resume_anchor,
            anchor is Some <==> self@.state == TimerState::Running,
    {
        proof {
            use_type_invariant(self);
        }
        self.start_time
    }

    /// Time banked by all earlier runs.
    pub fn accumulated(&self) -> (banked: u64)
        ensures
            banked == self@.accumulated,
    {
        self.elapsed_when_paused
    }

    /// Length of the countdown: always thirty minutes.
    pub fn total_duration(&self) -> (total: u64)
        ensures
            total == self@.target_duration,
            total == SESSION_NANOS,
    {
        proof {
            use_type_invariant(self);
        }
        self.total_duration
    }
}

impl Default for PomodoroApp {
    /// The same as [`PomodoroApp::new`].
    fn default() -> (app: Self)
        ensures
            app@ == SessionView::initial(),
            app@.wf(),
    {
        PomodoroApp::new()
    }
}

/// Every transition takes a well-formed session to a well-formed one and
/// leaves the target duration alone.
pub proof fn law_transitions_keep_shape(v: SessionView, now: u64)
    requires
        v.wf(),
    ensures
        v.started(now).wf(),
        v.paused(now).wf(),
        v.cleared().wf(),
        v.polled(now).wf(),
        v.started(now).target_duration == v.target_duration,
        v.paused(now).target_duration == v.target_duration,
        v.cleared().target_duration == v.target_duration,
        v.polled(now).target_duration == v.target_duration,
{
}

/// The resume anchor is there exactly while the session runs: starting sets
/// it to the instant of the call, pausing and resetting take it away.
pub proof fn law_anchor_iff_running(v: SessionView, now: u64)
    requires
        v.wf(),
    ensures
        v.resume_anchor is Some <==> v.state == TimerState::Running,
        v.state != TimerState::Running ==> v.started(now).resume_anchor == Some(now),
        v.paused(now).resume_anchor is None,
        v.cleared().resume_anchor is None,
{
}

/// Starting a running session and pausing one that does not run change
/// nothing.
pub proof fn law_repeated_call_is_noop(v: SessionView, now: u64, later: u64)
    requires
        v.wf(),
    ensures
        v.state == TimerState::Running ==> v.started(now) == v,
        v.state != TimerState::Running ==> v.paused(now) == v,
        v.started(now).started(later) == v.started(now),
        v.paused(now).paused(later) == v.paused(now),
{
}

/// For a session left alone, the elapsed time never goes down as the clock
/// goes up.
pub proof fn law_elapsed_monotone(v: SessionView, earlier: u64, later: u64)
    requires
        earlier <= later,
    ensures
        v.elapsed_at(earlier) <= v.elapsed_at(later),
{
}

/// The banked time is never more than the elapsed time, and neither
/// starting nor pausing lowers it.
pub proof fn law_banked_time_grows(v: SessionView, now: u64)
    requires
        v.wf(),
    ensures
        v.accumulated <= v.elapsed_at(now),
        v.accumulated <= v.started(now).accumulated,
        v.accumulated <= v.paused(now).accumulated,
{
}

/// Neither starting nor pausing lowers the elapsed time: seen at any later
/// instant, the session after the call has counted at least what it had
/// counted at any instant before the call.
pub proof fn law_start_pause_keep_elapsed(v: SessionView, before: u64, at: u64, after: u64)
    requires
        v.wf(),
        before <= at <= after,
    ensures
        v.elapsed_at(before) <= v.started(at).elapsed_at(after),
        v.elapsed_at(before) <= v.paused(at).elapsed_at(after),
{
}

/// Pausing freezes the elapsed time at its value at the instant of the call,
/// and resuming goes on from exactly that value.
pub proof fn law_pause_freezes(v: SessionView, at: u64, later: u64, resume: u64)
    requires
        v.wf(),
        v.state == TimerState::Running,
    ensures
        v.paused(at).elapsed_at(later) == v.elapsed_at(at),
        v.paused(at).started(resume).elapsed_at(resume) == v.elapsed_at(at),
{
}

/// The elapsed time is exactly zero right after a reset, right after a start
/// from idle, and after a completion check that found the countdown done.
pub proof fn law_elapsed_restarts_at_zero(v: SessionView, at: u64, later: u64)
    requires
        v.wf(),
    ensures
        v.cleared().elapsed_at(later) == 0,
        v.state == TimerState::Idle ==> v.started(at).elapsed_at(at) == 0,
        v.state == TimerState::Running && v.complete_at(at) ==> v.polled(at).state
            == TimerState::Idle && v.polled(at).elapsed_at(later) == 0,
{
}

/// The completion check leaves alone every session that is not running and
/// every running session that is short of its target.
pub proof fn law_poll_only_on_completion(v: SessionView, at: u64)
    requires
        v.wf(),
    ensures
        v.state != TimerState::Running ==> v.polled(at) == v,
        !v.complete_at(at) ==> v.polled(at) == v,
{
}

/// Progress always lies between zero and one, and reaches one exactly when
/// the elapsed time reaches the target.
pub proof fn law_progress_in_unit_range(v: SessionView, now: u64)
    requires
        v.wf(),
    ensures
        v.progress_at(now).in_unit_range(),
        v.progress_at(now).is_full() <==> v.complete_at(now),
        !v.complete_at(now) ==> v.progress_at(now).done == v.elapsed_at(now),
        v.progress_at(now).whole == v.target_duration,
{
}

/// Until the target is reached, elapsed and remaining time add up to the
/// target; from then on nothing remains.
pub proof fn law_remaining_complements_elapsed(v: SessionView, now: u64)
    requires
        v.wf(),
    ensures
        !v.complete_at(now) ==> v.elapsed_at(now) + v.remaining_at(now) == v.target_duration,
        v.complete_at(now) <==> v.remaining_at(now) == 0,
        v.remaining_at(now) <= v.target_duration,
{
}

} // verus!
