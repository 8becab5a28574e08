//! What one frame of the window decides: which input means what, and when
//! the next frame is due.

use vstd::prelude::*;
use crate::timer::{PomodoroApp, SessionView, TimerState};

verus! {

/// Longest wait before the next frame while the countdown runs: a tenth of a
/// second, in nanoseconds.
pub const REPAINT_NANOS: u64 = 100_000_000;

/// What the user did in a frame.
#[derive(Clone, Copy, Debug, PartialEq, Eq, Structural)]
pub enum Input {
    /// The keyboard shortcut that starts or resumes.
    StartShortcut,
    /// The keyboard shortcut that pauses.
    PauseShortcut,
    /// The keyboard shortcut that closes the window.
    QuitShortcut,
    /// A click with the primary button.
    PrimaryClick,
    /// A click with the secondary button.
    SecondaryClick,
}

/// What the window does after an input.
#[derive(Clone, Copy, Debug, PartialEq, Eq, Structural)]
pub enum Action {
    /// Go on drawing.
    Continue,
    /// Close the window and leave.
    Quit,
}

/// The shortcut that a set of pressed keys stands for. Every shortcut needs
/// Ctrl; with it, Q quits, and with Alt as well, S starts and P pauses, in
/// this order of precedence.
pub open spec fn shortcut_of(ctrl: bool, alt: bool, q: bool, s: bool, p: bool) -> Option<Input> {
    if !ctrl {
        None
    } else if q {
        Some(Input::QuitShortcut)
    } else if !alt {
        None
    } else if s {
        Some(Input::StartShortcut)
    } else if p {
        Some(Input::PauseShortcut)
    } else {
        None
    }
}

/// Reads a shortcut off the modifier keys held and the letter keys pressed in
/// this frame.
pub fn shortcut(ctrl: bool, alt: bool, q: bool, s: bool, p: bool) -> (input: Option<Input>)
    ensures
        input == shortcut_of(ctrl, alt, q, s, p),
{
    if ctrl {
        if q {
            Some(Input::QuitShortcut)
        } else if alt {
            if s {
                Some(Input::StartShortcut)
            } else if p {
                Some(Input::PauseShortcut)
            } else {
                None
            }
        } else {
            None
        }
    } else {
        None
    }
}

impl SessionView {
    /// The session after `input` at `now`. A primary click starts an idle or
    /// paused session and pauses a running one; a secondary click resets;
    /// quitting leaves the session as it is.
    pub open spec fn after(self, input: Input, now: u64) -> SessionView {
        match input {
            Input::StartShortcut => self.started(now),
            Input::PauseShortcut => self.paused(now),
            Input::QuitShortcut => self,
            Input::PrimaryClick => if self.state == TimerState::Running {
                self.paused(now)
            } else {
                self.started(now)
            },
            Input::SecondaryClick => self.cleared(),
        }
    }

    /// How long the window may wait before it draws again: a tenth of a
    /// second while running, and until the next input otherwise.
    pub open spec fn repaint_delay(self) -> Option<u64> {
        if self.state == TimerState::Running {
            Some(REPAINT_NANOS)
        } else {
            None
        }
    }
}

impl PomodoroApp {
    /// Applies one input at `now` and says whether the window goes on.
    pub fn handle(&mut self, input: Input, now: u64) -> (action: Action)
        ensures
            final(self)@ == old(self)@.after(input, now),
            final(self)@.wf(),
            action == Action::Quit <==> input == Input::QuitShortcut,
    {
        let state = self.state();
        match input {
            Input::StartShortcut => {
                self.start_timer(now);
                Action::Continue
            },
            Input::PauseShortcut => {
                self.pause_timer(now);
                Action::Continue
            },
            Input::QuitShortcut => Action::Quit,
            Input::PrimaryClick => {
                match state {
                    TimerState::Idle | TimerState::Paused => self.start_timer(now),
                    TimerState::Running => self.pause_timer(now),
                }
                Action::Continue
            },
            Input::SecondaryClick => {
                self.reset_timer();
                Action::Continue
            },
        }
    }

    /// How long the window may wait before it draws again.
    pub fn repaint_after(&self) -> (delay: Option<u64>)
        ensures
            delay == self@.repaint_delay(),
    {
        match self.state() {
            TimerState::Running => Some(REPAINT_NANOS),
            _ => None,
        }
    }
}

/// One input together with the clock value at which it arrived.
pub struct Step {
    pub input: Input,
    pub at: u64,
}

/// The session after a sequence of inputs, applied in order.
pub open spec fn replay(v: SessionView, steps: Seq<Step>) -> SessionView
    decreases steps.len(),
{
    if steps.len() == 0 {
        v
    } else {
        replay(v, steps.drop_last()).after(steps.last().input, steps.last().at)
    }
}

/// The clock never goes back from one step to a later one.
pub open spec fn in_time_order(steps: Seq<Step>) -> bool {
    forall|i: int, j: int| 0 <= i <= j < steps.len() ==> steps[i].at <= steps[j].at
}

/// No step of the sequence resets the session.
pub open spec fn without_reset(steps: Seq<Step>) -> bool {
    forall|i: int| 0 <= i < steps.len() ==> steps[i].input != Input::SecondaryClick
}

/// Every input takes a well-formed session to a well-formed one and leaves
/// the target duration alone.
pub proof fn law_inputs_keep_shape(v: SessionView, input: Input, now: u64)
    requires
        v.wf(),
    ensures
        v.after(input, now).wf(),
        v.after(input, now).target_duration == v.target_duration,
{
}

/// A primary click toggles between running and not running, and a secondary
/// click always ends in idle.
pub proof fn law_clicks(v: SessionView, now: u64)
    requires
        v.wf(),
    ensures
        v.state == TimerState::Running ==> v.after(Input::PrimaryClick, now).state
            == TimerState::Paused,
        v.state != TimerState::Running ==> v.after(Input::PrimaryClick, now).state
            == TimerState::Running,
        v.after(Input::SecondaryClick, now) == SessionView::initial(),
{
}

/// The window asks for a further frame exactly while the countdown runs.
pub proof fn law_repaint_iff_running(v: SessionView)
    ensures
        v.repaint_delay() is Some <==> v.state == TimerState::Running,
        v.repaint_delay() is Some ==> v.repaint_delay() == Some(REPAINT_NANOS),
{
}

/// No input but a reset lowers the elapsed time: seen at any later instant,
/// the session after the input has counted at least what it had counted at
/// any instant before the input.
pub proof fn law_input_keeps_elapsed(
    v: SessionView,
    input: Input,
    before: u64,
    at: u64,
    after: u64,
)
    requires
        v.wf(),
        input != Input::SecondaryClick,
        before <= at <= after,
    ensures
        v.elapsed_at(before) <= v.after(input, at).elapsed_at(after),
{
}

/// Replaying inputs keeps the session well-formed.
pub proof fn law_replay_keeps_shape(v: SessionView, steps: Seq<Step>)
    requires
        v.wf(),
    ensures
        replay(v, steps).wf(),
    decreases steps.len(),
{
    if steps.len() > 0 {
        law_replay_keeps_shape(v, steps.drop_last());
    }
}

/// Over any sequence of starts and pauses whose clock values never go back,
/// the elapsed time never goes down: seen at the end, the session has
/// counted at least what it had counted at the beginning.
pub proof fn law_elapsed_never_drops(v: SessionView, steps: Seq<Step>, begin: u64, end: u64)
    requires
        v.wf(),
        in_time_order(steps),
        without_reset(steps),
        begin <= end,
        forall|i: int| 0 <= i < steps.len() ==> begin <= #[trigger] steps[i].at <= end,
    ensures
        v.elapsed_at(begin) <= replay(v, steps).elapsed_at(end),
    decreases steps.len(),
{
    if steps.len() > 0 {
        let head = steps.drop_last();
        let last = steps.last();
        assert(forall|i: int| 0 <= i < head.len() ==> head[i] == steps[i]);
        assert(in_time_order(head));
        assert(without_reset(head));
        assert(begin <= last.at <= end);
        assert forall|i: int| 0 <= i < head.len() implies begin <= #[trigger] head[i].at
            <= last.at by {
            assert(steps[i].at <= steps[steps.len() - 1].at);
        }
        law_elapsed_never_drops(v, head, begin, last.at);
        law_replay_keeps_shape(v, head);
        law_input_keeps_elapsed(replay(v, head), last.input, last.at, last.at, end);
    }
}

} // verus!
