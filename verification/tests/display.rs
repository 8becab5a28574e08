use rustydoro::display::format_seconds;
use rustydoro::timer::{PomodoroApp, NANOS_PER_SEC};

const SEC: u64 = NANOS_PER_SEC;

#[test]
fn formats_minutes_and_seconds() {
    let app = PomodoroApp::new();
    assert_eq!(app.format_time(125 * SEC), "02:05");
    assert_eq!(app.format_time(0), "00:00");
}

#[test]
fn formats_the_full_session() {
    let mut app = PomodoroApp::new();
    assert_eq!(app.format_time(app.remaining(0)), "30:00");
    app.start_timer(0);
    assert_eq!(app.format_time(app.remaining(SEC)), "29:59");
    assert_eq!(app.format_time(app.remaining(1799 * SEC)), "00:01");
    assert_eq!(app.format_time(app.remaining(1800 * SEC)), "00:00");
}

#[test]
fn drops_the_part_of_a_second() {
    let app = PomodoroApp::new();
    assert_eq!(app.format_time(SEC - 1), "00:00");
    assert_eq!(app.format_time(SEC), "00:01");
    assert_eq!(app.format_time(60 * SEC - 1), "00:59");
    assert_eq!(app.format_time(60 * SEC), "01:00");
    assert_eq!(app.format_time(125 * SEC + 999_999_999), "02:05");
}

#[test]
fn pads_each_field_to_two_digits() {
    assert_eq!(format_seconds(0), "00:00");
    assert_eq!(format_seconds(9), "00:09");
    assert_eq!(format_seconds(10), "00:10");
    assert_eq!(format_seconds(59), "00:59");
    assert_eq!(format_seconds(540), "09:00");
    assert_eq!(format_seconds(600), "10:00");
    assert_eq!(format_seconds(3723), "62:03");
    assert_eq!(format_seconds(5999), "99:59");
}

#[test]
fn minutes_grow_past_two_digits() {
    assert_eq!(format_seconds(6000), "100:00");
    assert_eq!(format_seconds(123_456 * 60 + 7), "123456:07");
    assert_eq!(format_seconds(u64::MAX), "307445734561825860:15");
}

#[test]
fn agrees_with_the_standard_formatter() {
    for total in (0..20_000u64).step_by(37) {
        assert_eq!(format_seconds(total), format!("{:02}:{:02}", total / 60, total % 60));
    }
}
