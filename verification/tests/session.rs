use rustydoro::timer::{PomodoroApp, Progress, TimerState, NANOS_PER_SEC, SESSION_NANOS};

const SEC: u64 = NANOS_PER_SEC;
const MIN: u64 = 60 * NANOS_PER_SEC;

#[test]
fn new_session_is_idle_with_nothing_banked() {
    let app = PomodoroApp::new();
    assert_eq!(app.state(), TimerState::Idle);
    assert_eq!(app.resume_anchor(), None);
    assert_eq!(app.accumulated(), 0);
    assert_eq!(app.total_duration(), 30 * MIN);
    assert_eq!(SESSION_NANOS, 1_800_000_000_000);
    assert_eq!(app.get_elapsed_time(12345), 0);
}

#[test]
fn default_session_matches_new() {
    let app = PomodoroApp::default();
    assert_eq!(app.state(), TimerState::Idle);
    assert_eq!(app.resume_anchor(), None);
    assert_eq!(app.accumulated(), 0);
    assert_eq!(app.total_duration(), SESSION_NANOS);
}

#[test]
fn start_pause_resume_accumulates() {
    let mut app = PomodoroApp::new();
    app.start_timer(0);
    assert_eq!(app.state(), TimerState::Running);
    assert_eq!(app.get_elapsed_time(0), 0);
    assert_eq!(app.get_elapsed_time(5 * SEC), 5 * SEC);
    app.pause_timer(5 * SEC);
    assert_eq!(app.state(), TimerState::Paused);
    assert_eq!(app.get_elapsed_time(100 * SEC), 5 * SEC);
    app.start_timer(100 * SEC);
    assert_eq!(app.state(), TimerState::Running);
    assert_eq!(app.get_elapsed_time(107 * SEC), 12 * SEC);
}

#[test]
fn completion_returns_to_idle() {
    let mut app = PomodoroApp::new();
    app.start_timer(0);
    app.pause_timer(29 * MIN + 59 * SEC);
    app.start_timer(40 * MIN);
    assert_eq!(app.accumulated(), 29 * MIN + 59 * SEC);
    assert_eq!(app.state(), TimerState::Running);

    app.poll(40 * MIN + SEC - 1);
    assert_eq!(app.state(), TimerState::Running);
    assert_eq!(app.get_elapsed_time(40 * MIN + SEC - 1), 30 * MIN - 1);

    app.poll(40 * MIN + SEC);
    assert_eq!(app.state(), TimerState::Idle);
    assert_eq!(app.resume_anchor(), None);
    assert_eq!(app.accumulated(), 0);
    assert_eq!(app.get_elapsed_time(40 * MIN + SEC), 0);
    assert_eq!(app.get_elapsed_time(90 * MIN), 0);
}

#[test]
fn poll_leaves_idle_and_paused_alone() {
    let mut app = PomodoroApp::new();
    app.poll(100 * MIN);
    assert_eq!(app.state(), TimerState::Idle);

    app.start_timer(0);
    app.pause_timer(45 * MIN);
    app.poll(50 * MIN);
    assert_eq!(app.state(), TimerState::Paused);
    assert_eq!(app.get_elapsed_time(50 * MIN), 45 * MIN);
    assert_eq!(app.remaining(50 * MIN), 0);
}

#[test]
fn start_from_idle_begins_at_zero() {
    let mut app = PomodoroApp::new();
    app.start_timer(77 * SEC);
    assert_eq!(app.resume_anchor(), Some(77 * SEC));
    assert_eq!(app.accumulated(), 0);
    assert_eq!(app.get_elapsed_time(77 * SEC), 0);
}

#[test]
fn start_while_running_changes_nothing() {
    let mut app = PomodoroApp::new();
    app.start_timer(10 * SEC);
    app.start_timer(20 * SEC);
    assert_eq!(app.state(), TimerState::Running);
    assert_eq!(app.resume_anchor(), Some(10 * SEC));
    assert_eq!(app.get_elapsed_time(25 * SEC), 15 * SEC);
}

#[test]
fn pause_while_idle_or_paused_changes_nothing() {
    let mut app = PomodoroApp::new();
    app.pause_timer(10 * SEC);
    assert_eq!(app.state(), TimerState::Idle);
    assert_eq!(app.accumulated(), 0);

    app.start_timer(10 * SEC);
    app.pause_timer(13 * SEC);
    app.pause_timer(50 * SEC);
    assert_eq!(app.state(), TimerState::Paused);
    assert_eq!(app.accumulated(), 3 * SEC);
    assert_eq!(app.resume_anchor(), None);
}

#[test]
fn reset_clears_every_state() {
    let mut app = PomodoroApp::new();
    app.reset_timer();
    assert_eq!(app.state(), TimerState::Idle);

    app.start_timer(SEC);
    app.reset_timer();
    assert_eq!(app.state(), TimerState::Idle);
    assert_eq!(app.resume_anchor(), None);
    assert_eq!(app.get_elapsed_time(9 * SEC), 0);

    app.start_timer(SEC);
    app.pause_timer(4 * SEC);
    app.reset_timer();
    assert_eq!(app.state(), TimerState::Idle);
    assert_eq!(app.accumulated(), 0);
    assert_eq!(app.total_duration(), SESSION_NANOS);

    app.start_timer(10 * SEC);
    assert_eq!(app.get_elapsed_time(10 * SEC), 0);
    assert_eq!(app.get_elapsed_time(11 * SEC), SEC);
}

#[test]
fn elapsed_never_drops_over_starts_and_pauses() {
    let mut app = PomodoroApp::new();
    let mut last = app.get_elapsed_time(0);
    let mut now = 0u64;
    for round in 0..40u64 {
        now += (round % 7) * SEC;
        match round % 4 {
            0 => app.start_timer(now),
            1 => app.pause_timer(now),
            2 => app.start_timer(now),
            _ => app.start_timer(now),
        }
        let seen = app.get_elapsed_time(now);
        assert!(seen >= last);
        last = seen;
        now += 3 * SEC;
        let seen = app.get_elapsed_time(now);
        assert!(seen >= last);
        last = seen;
    }
    assert!(last > 0);
}

#[test]
fn clock_before_anchor_counts_as_no_time() {
    let mut app = PomodoroApp::new();
    app.start_timer(50 * SEC);
    assert_eq!(app.get_elapsed_time(20 * SEC), 0);
    app.pause_timer(20 * SEC);
    assert_eq!(app.accumulated(), 0);
    assert_eq!(app.state(), TimerState::Paused);
}

#[test]
fn elapsed_stops_at_the_largest_count() {
    let mut app = PomodoroApp::new();
    app.start_timer(0);
    app.pause_timer(u64::MAX - 5);
    app.start_timer(0);
    assert_eq!(app.get_elapsed_time(4), u64::MAX - 1);
    assert_eq!(app.get_elapsed_time(5), u64::MAX);
    assert_eq!(app.get_elapsed_time(1000), u64::MAX);
    app.pause_timer(1000);
    assert_eq!(app.accumulated(), u64::MAX);
}

#[test]
fn progress_is_elapsed_over_target() {
    let mut app = PomodoroApp::new();
    assert_eq!(app.get_progress(0), Progress { done: 0, whole: 30 * MIN });
    app.start_timer(0);
    assert_eq!(app.get_progress(15 * MIN), Progress { done: 15 * MIN, whole: 30 * MIN });
    assert!(!app.get_progress(15 * MIN).is_complete());
    assert_eq!(app.get_progress(30 * MIN - 1), Progress { done: 30 * MIN - 1, whole: 30 * MIN });
    assert!(!app.get_progress(30 * MIN - 1).is_complete());
}

#[test]
fn progress_stays_within_zero_and_one() {
    let mut app = PomodoroApp::new();
    app.start_timer(0);
    for now in [0, 1, MIN, 30 * MIN - 1, 30 * MIN, 30 * MIN + 1, 500 * MIN, u64::MAX] {
        let p = app.get_progress(now);
        assert!(p.whole > 0);
        assert!(p.done <= p.whole);
    }
    assert_eq!(app.get_progress(30 * MIN), Progress { done: 30 * MIN, whole: 30 * MIN });
    assert_eq!(app.get_progress(u64::MAX), Progress { done: 30 * MIN, whole: 30 * MIN });
    assert!(app.get_progress(30 * MIN).is_complete());
}

#[test]
fn remaining_counts_down_to_zero() {
    let mut app = PomodoroApp::new();
    assert_eq!(app.remaining(0), 30 * MIN);
    app.start_timer(0);
    assert_eq!(app.remaining(0), 30 * MIN);
    assert_eq!(app.remaining(125 * SEC), 30 * MIN - 125 * SEC);
    assert_eq!(app.remaining(30 * MIN - 1), 1);
    assert_eq!(app.remaining(30 * MIN), 0);
    assert_eq!(app.remaining(31 * MIN), 0);
}
