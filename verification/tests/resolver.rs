use flowtimer::config::{
    ClockTime, CycleStep, IntervalMode, Rgba8, ScheduleConfig, ScreenConfig, TimeInterval,
    TimeOfDay,
};
use flowtimer::resolve::determine_active_screen;

fn color() -> Rgba8 {
    Rgba8 { r: 10, g: 20, b: 30, a: 255 }
}

fn screen(id: u32, title: &str, subtitle: &str) -> ScreenConfig {
    ScreenConfig { id, title: title.to_string(), subtitle: subtitle.to_string(), color: color() }
}

fn tod(hour: u8, minute: u8) -> TimeOfDay {
    TimeOfDay { hour, minute }
}

fn clock(hour: u8, minute: u8, second: u8) -> ClockTime {
    ClockTime { hour, minute, second }
}

fn static_interval(id: u32, name: &str, start: TimeOfDay, end: TimeOfDay, screen_id: u32) -> TimeInterval {
    TimeInterval { id, name: name.to_string(), start, end, mode: IntervalMode::Static { screen_id } }
}

#[test]
fn static_interval_scenario() {
    let cfg = ScheduleConfig {
        screens: vec![screen(1, "Work", "Focus")],
        intervals: vec![static_interval(1, "Morning", tod(9, 0), tod(12, 0), 1)],
        default_screen_id: None,
    };
    let info = determine_active_screen(&cfg, clock(10, 30, 0)).unwrap();
    assert_eq!(info.screen_id, 1);
    assert_eq!(info.remaining_seconds, 5400);
    assert_eq!(info.title, "Work");
    assert_eq!(info.subtitle, "Focus (static mode)");
    assert_eq!(info.interval_name, "Morning");
    assert!(!info.is_default_screen);
}

#[test]
fn static_interval_counts_seconds() {
    let cfg = ScheduleConfig {
        screens: vec![screen(1, "Work", "Focus")],
        intervals: vec![static_interval(1, "Morning", tod(9, 0), tod(12, 0), 1)],
        default_screen_id: None,
    };
    let info = determine_active_screen(&cfg, clock(10, 30, 45)).unwrap();
    assert_eq!(info.remaining_seconds, 89 * 60 + 15);
}

#[test]
fn cycle_interval_scenario() {
    let steps = vec![
        CycleStep { screen_id: 1, duration_minutes: 25 },
        CycleStep { screen_id: 2, duration_minutes: 5 },
    ];
    let cfg = ScheduleConfig {
        screens: vec![screen(1, "Work", "Focus"), screen(2, "Break", "")],
        intervals: vec![TimeInterval {
            id: 1,
            name: "Pomodoro".to_string(),
            start: tod(14, 0),
            end: tod(18, 0),
            mode: IntervalMode::Cycle { steps },
        }],
        default_screen_id: None,
    };
    let info = determine_active_screen(&cfg, clock(14, 26, 0)).unwrap();
    assert_eq!(info.screen_id, 2);
    assert_eq!(info.remaining_seconds, 240);
    assert_eq!(info.title, "Break");
    assert_eq!(info.subtitle, "Step 2/2 (cycle)");
    assert!(!info.is_default_screen);
}

#[test]
fn cycle_subtitle_joins_screen_subtitle() {
    let steps = vec![
        CycleStep { screen_id: 1, duration_minutes: 25 },
        CycleStep { screen_id: 2, duration_minutes: 5 },
    ];
    let cfg = ScheduleConfig {
        screens: vec![screen(1, "Work", "Deep focus"), screen(2, "Break", "")],
        intervals: vec![TimeInterval {
            id: 1,
            name: "Pomodoro".to_string(),
            start: tod(14, 0),
            end: tod(18, 0),
            mode: IntervalMode::Cycle { steps },
        }],
        default_screen_id: None,
    };
    let info = determine_active_screen(&cfg, clock(14, 10, 0)).unwrap();
    assert_eq!(info.screen_id, 1);
    assert_eq!(info.subtitle, "Deep focus — Step 1/2 (cycle)");
}

#[test]
fn cycle_wraparound_selects_same_step() {
    let steps = vec![
        CycleStep { screen_id: 1, duration_minutes: 25 },
        CycleStep { screen_id: 2, duration_minutes: 5 },
    ];
    let cfg = ScheduleConfig {
        screens: vec![screen(1, "Work", ""), screen(2, "Break", "")],
        intervals: vec![TimeInterval {
            id: 1,
            name: "Pomodoro".to_string(),
            start: tod(14, 0),
            end: tod(18, 0),
            mode: IntervalMode::Cycle { steps },
        }],
        default_screen_id: None,
    };
    // 14:26 and one full cycle (30 minutes) later: same step, same screen.
    let a = determine_active_screen(&cfg, clock(14, 26, 0)).unwrap();
    let b = determine_active_screen(&cfg, clock(14, 56, 0)).unwrap();
    assert_eq!(a.screen_id, 2);
    assert_eq!(b.screen_id, 2);
    assert_eq!(a.subtitle, b.subtitle);
    assert_eq!(a.remaining_seconds, b.remaining_seconds);
}

#[test]
fn cycle_step_truncated_at_interval_end() {
    let steps = vec![CycleStep { screen_id: 1, duration_minutes: 10 }];
    let cfg = ScheduleConfig {
        screens: vec![screen(1, "Work", "")],
        intervals: vec![TimeInterval {
            id: 1,
            name: "Short".to_string(),
            start: tod(14, 0),
            end: tod(14, 3),
            mode: IntervalMode::Cycle { steps },
        }],
        default_screen_id: None,
    };
    let info = determine_active_screen(&cfg, clock(14, 1, 0)).unwrap();
    // two minutes to the interval end beat the nine minutes left in the step
    assert_eq!(info.remaining_seconds, 120);
}

#[test]
fn default_screen_scenario() {
    let cfg = ScheduleConfig {
        screens: vec![screen(1, "Work", "Focus")],
        intervals: vec![static_interval(1, "Morning", tod(9, 0), tod(12, 0), 1)],
        default_screen_id: Some(1),
    };
    let info = determine_active_screen(&cfg, clock(7, 15, 0)).unwrap();
    assert_eq!(info.screen_id, 1);
    assert!(info.is_default_screen);
    assert_eq!(info.remaining_seconds, 6300);
    assert_eq!(info.interval_name, "Waiting");
    assert_eq!(info.subtitle, "Focus");
}

#[test]
fn default_counts_to_midnight_when_nothing_remains() {
    let cfg = ScheduleConfig {
        screens: vec![screen(1, "Work", "")],
        intervals: vec![],
        default_screen_id: Some(1),
    };
    let info = determine_active_screen(&cfg, clock(23, 10, 0)).unwrap();
    assert!(info.is_default_screen);
    assert_eq!(info.remaining_seconds, 3000);
}

#[test]
fn unset_default_falls_back_to_first_screen() {
    let cfg = ScheduleConfig {
        screens: vec![screen(5, "Five", ""), screen(6, "Six", "")],
        intervals: vec![],
        default_screen_id: None,
    };
    let info = determine_active_screen(&cfg, clock(12, 0, 0)).unwrap();
    assert_eq!(info.screen_id, 5);
    assert!(info.is_default_screen);
}

#[test]
fn unresolvable_default_falls_back_to_first_screen() {
    let cfg = ScheduleConfig {
        screens: vec![screen(5, "Five", ""), screen(6, "Six", "")],
        intervals: vec![],
        default_screen_id: Some(99),
    };
    let info = determine_active_screen(&cfg, clock(12, 0, 0)).unwrap();
    assert_eq!(info.screen_id, 5);
}

#[test]
fn missing_static_screen_degrades_with_diagnostic() {
    let cfg = ScheduleConfig {
        screens: vec![screen(1, "First", "")],
        intervals: vec![static_interval(1, "Morning", tod(9, 0), tod(12, 0), 7)],
        default_screen_id: None,
    };
    let info = determine_active_screen(&cfg, clock(10, 0, 0)).unwrap();
    assert_eq!(info.title, "Screen not found (ID: 7)");
    assert_eq!(info.subtitle, "Showing the first configured screen");
    assert_eq!(info.screen_id, 1);
    assert_eq!(info.remaining_seconds, 119 * 60 + 60);
}

#[test]
fn missing_cycle_screen_degrades_with_diagnostic() {
    let steps = vec![CycleStep { screen_id: 9, duration_minutes: 10 }];
    let cfg = ScheduleConfig {
        screens: vec![screen(1, "First", "")],
        intervals: vec![TimeInterval {
            id: 1,
            name: "Loop".to_string(),
            start: tod(14, 0),
            end: tod(15, 0),
            mode: IntervalMode::Cycle { steps },
        }],
        default_screen_id: None,
    };
    let info = determine_active_screen(&cfg, clock(14, 5, 0)).unwrap();
    assert_eq!(info.title, "Screen not found (ID: 9)");
    assert_eq!(info.screen_id, 1);
}

#[test]
fn empty_cycle_resolves_to_none() {
    let cfg = ScheduleConfig {
        screens: vec![screen(1, "Work", "")],
        intervals: vec![TimeInterval {
            id: 1,
            name: "Empty".to_string(),
            start: tod(9, 0),
            end: tod(12, 0),
            mode: IntervalMode::Cycle { steps: vec![] },
        }],
        default_screen_id: None,
    };
    assert!(determine_active_screen(&cfg, clock(10, 0, 0)).is_none());
}

#[test]
fn zero_duration_cycle_resolves_to_none() {
    let steps = vec![
        CycleStep { screen_id: 1, duration_minutes: 0 },
        CycleStep { screen_id: 2, duration_minutes: 0 },
    ];
    let cfg = ScheduleConfig {
        screens: vec![screen(1, "Work", "")],
        intervals: vec![TimeInterval {
            id: 1,
            name: "Zero".to_string(),
            start: tod(9, 0),
            end: tod(12, 0),
            mode: IntervalMode::Cycle { steps },
        }],
        default_screen_id: None,
    };
    assert!(determine_active_screen(&cfg, clock(10, 0, 0)).is_none());
}

#[test]
fn no_screens_resolves_to_none() {
    let cfg = ScheduleConfig { screens: vec![], intervals: vec![], default_screen_id: None };
    assert!(determine_active_screen(&cfg, clock(10, 0, 0)).is_none());
}

#[test]
fn first_match_wins_over_list_order() {
    let cfg = ScheduleConfig {
        screens: vec![screen(1, "One", ""), screen(2, "Two", "")],
        intervals: vec![
            static_interval(1, "Later listed first", tod(10, 0), tod(12, 0), 2),
            static_interval(2, "Wider", tod(9, 0), tod(13, 0), 1),
        ],
        default_screen_id: None,
    };
    let info = determine_active_screen(&cfg, clock(10, 30, 0)).unwrap();
    assert_eq!(info.screen_id, 2);
}

#[test]
fn resolve_is_pure() {
    let cfg = ScheduleConfig {
        screens: vec![screen(1, "Work", "Focus")],
        intervals: vec![static_interval(1, "Morning", tod(9, 0), tod(12, 0), 1)],
        default_screen_id: Some(1),
    };
    let a = determine_active_screen(&cfg, clock(10, 30, 15)).unwrap();
    let b = determine_active_screen(&cfg, clock(10, 30, 15)).unwrap();
    assert_eq!(a.title, b.title);
    assert_eq!(a.subtitle, b.subtitle);
    assert_eq!(a.remaining_seconds, b.remaining_seconds);
    assert_eq!(a.interval_name, b.interval_name);
    assert_eq!(a.screen_id, b.screen_id);
    assert_eq!(a.is_default_screen, b.is_default_screen);
}

#[test]
fn resolves_some_on_consistent_schedule_with_screens() {
    let cfg = ScheduleConfig {
        screens: vec![screen(1, "Work", "")],
        intervals: vec![
            static_interval(1, "A", tod(9, 0), tod(10, 0), 1),
            static_interval(2, "B", tod(10, 0), tod(11, 0), 1),
        ],
        default_screen_id: None,
    };
    for hour in 0..24u8 {
        let info = determine_active_screen(&cfg, clock(hour, 30, 59)).unwrap();
        assert!(info.remaining_seconds >= 1);
    }
}
