use flowtimer::config::{ClockTime, TimeOfDay, default_schedule};
use flowtimer::text::{format_duration_hhmmss, format_time_until_transition};

fn clock(hour: u8, minute: u8, second: u8) -> ClockTime {
    ClockTime { hour, minute, second }
}

#[test]
fn durations_under_an_hour_use_two_fields() {
    assert_eq!(format_duration_hhmmss(0), "00:00");
    assert_eq!(format_duration_hhmmss(59), "00:59");
    assert_eq!(format_duration_hhmmss(125), "02:05");
    assert_eq!(format_duration_hhmmss(3599), "59:59");
}

#[test]
fn durations_of_an_hour_use_three_fields() {
    assert_eq!(format_duration_hhmmss(3600), "01:00:00");
    assert_eq!(format_duration_hhmmss(3661), "01:01:01");
    assert_eq!(format_duration_hhmmss(5400), "01:30:00");
    assert_eq!(format_duration_hhmmss(360000), "100:00:00");
}

#[test]
fn time_until_transition_formats_the_distance() {
    // next transition at 12:00:00, read at 10:30:00
    let r = format_time_until_transition(Some(12 * 3600), clock(10, 30, 0));
    assert_eq!(r, "01:30:00");
}

#[test]
fn time_until_transition_placeholder_without_future() {
    assert_eq!(format_time_until_transition(None, clock(10, 30, 0)), "—");
    assert_eq!(format_time_until_transition(Some(100), clock(10, 30, 0)), "—");
    assert_eq!(
        format_time_until_transition(Some(10 * 3600 + 30 * 60), clock(10, 30, 0)),
        "—"
    );
}

#[test]
fn to_minutes_converts_hours_and_minutes() {
    assert_eq!(TimeOfDay { hour: 0, minute: 0 }.to_minutes(), 0);
    assert_eq!(TimeOfDay { hour: 9, minute: 0 }.to_minutes(), 540);
    assert_eq!(TimeOfDay { hour: 23, minute: 59 }.to_minutes(), 1439);
}

#[test]
fn clock_time_converts_to_seconds() {
    let c = clock(10, 30, 15);
    assert_eq!(c.minutes_of_day(), 630);
    assert_eq!(c.seconds_of_day(), 37815);
}

#[test]
fn default_schedule_matches_the_starter_layout() {
    let cfg = default_schedule();
    assert_eq!(cfg.screens.len(), 3);
    assert_eq!(cfg.screens[0].id, 1);
    assert_eq!(cfg.screens[0].title, "Work");
    assert_eq!(cfg.screens[1].title, "Break");
    assert_eq!(cfg.screens[2].title, "Preparation");
    assert_eq!(cfg.intervals.len(), 2);
    assert_eq!(cfg.intervals[0].name, "Morning work");
    assert_eq!(cfg.intervals[0].start.to_minutes(), 540);
    assert_eq!(cfg.intervals[0].end.to_minutes(), 720);
    assert_eq!(cfg.intervals[1].name, "Pomodoro session");
    assert_eq!(cfg.default_screen_id, Some(1));
}
