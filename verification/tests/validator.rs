use flowtimer::config::{
    CycleStep, IntervalMode, Rgba8, ScheduleConfig, ScreenConfig, TimeInterval, TimeOfDay,
    default_schedule,
};
use flowtimer::validate::validate_intervals;

fn tod(hour: u8, minute: u8) -> TimeOfDay {
    TimeOfDay { hour, minute }
}

fn static_interval(name: &str, start: TimeOfDay, end: TimeOfDay) -> TimeInterval {
    TimeInterval {
        id: 0,
        name: name.to_string(),
        start,
        end,
        mode: IntervalMode::Static { screen_id: 1 },
    }
}

#[test]
fn overlapping_intervals_flag_both_names() {
    let intervals = vec![
        static_interval("A", tod(8, 0), tod(11, 0)),
        static_interval("B", tod(10, 0), tod(13, 0)),
    ];
    let msgs = validate_intervals(&intervals);
    assert!(!msgs.is_empty());
    assert!(msgs.contains(&"Intervals 'A' and 'B' overlap in time".to_string()));
    assert!(msgs.contains(&"Intervals 'B' and 'A' overlap in time".to_string()));
    assert_eq!(msgs.len(), 2);
}

#[test]
fn overlap_flagged_regardless_of_order() {
    let forward = vec![
        static_interval("A", tod(8, 0), tod(11, 0)),
        static_interval("B", tod(10, 0), tod(13, 0)),
    ];
    let backward = vec![
        static_interval("B", tod(10, 0), tod(13, 0)),
        static_interval("A", tod(8, 0), tod(11, 0)),
    ];
    let fw = validate_intervals(&forward);
    let bw = validate_intervals(&backward);
    for m in [
        "Intervals 'A' and 'B' overlap in time",
        "Intervals 'B' and 'A' overlap in time",
    ] {
        assert!(fw.contains(&m.to_string()));
        assert!(bw.contains(&m.to_string()));
    }
}

#[test]
fn inverted_interval_flagged() {
    let intervals = vec![static_interval("Upside", tod(12, 0), tod(9, 0))];
    let msgs = validate_intervals(&intervals);
    assert_eq!(
        msgs,
        vec!["Interval 'Upside': start time must be earlier than end time".to_string()]
    );
}

#[test]
fn zero_length_interval_flagged() {
    let intervals = vec![static_interval("Point", tod(9, 0), tod(9, 0))];
    let msgs = validate_intervals(&intervals);
    assert_eq!(
        msgs,
        vec!["Interval 'Point': start time must be earlier than end time".to_string()]
    );
}

#[test]
fn empty_cycle_flagged() {
    let intervals = vec![TimeInterval {
        id: 0,
        name: "Hollow".to_string(),
        start: tod(9, 0),
        end: tod(10, 0),
        mode: IntervalMode::Cycle { steps: vec![] },
    }];
    let msgs = validate_intervals(&intervals);
    assert_eq!(
        msgs,
        vec!["Interval 'Hollow': cycle mode must contain at least one step".to_string()]
    );
}

#[test]
fn zero_total_cycle_flagged() {
    let intervals = vec![TimeInterval {
        id: 0,
        name: "Still".to_string(),
        start: tod(9, 0),
        end: tod(10, 0),
        mode: IntervalMode::Cycle {
            steps: vec![
                CycleStep { screen_id: 1, duration_minutes: 0 },
                CycleStep { screen_id: 2, duration_minutes: 0 },
            ],
        },
    }];
    let msgs = validate_intervals(&intervals);
    assert_eq!(
        msgs,
        vec!["Interval 'Still': total step duration must not be zero".to_string()]
    );
}

#[test]
fn consistent_schedule_yields_no_messages() {
    let cfg = default_schedule();
    assert!(validate_intervals(&cfg.intervals).is_empty());
}

#[test]
fn touching_intervals_do_not_overlap() {
    let intervals = vec![
        static_interval("A", tod(8, 0), tod(10, 0)),
        static_interval("B", tod(10, 0), tod(12, 0)),
    ];
    assert!(validate_intervals(&intervals).is_empty());
}

#[test]
fn validation_reports_without_blocking_resolution() {
    // a defective configuration still resolves best-effort, first match wins
    let cfg = ScheduleConfig {
        screens: vec![ScreenConfig {
            id: 1,
            title: "One".to_string(),
            subtitle: "".to_string(),
            color: Rgba8 { r: 0, g: 0, b: 0, a: 255 },
        }],
        intervals: vec![
            static_interval("A", tod(8, 0), tod(11, 0)),
            static_interval("B", tod(10, 0), tod(13, 0)),
        ],
        default_screen_id: None,
    };
    assert!(!validate_intervals(&cfg.intervals).is_empty());
    let info = flowtimer::resolve::determine_active_screen(
        &cfg,
        flowtimer::config::ClockTime { hour: 10, minute: 30, second: 0 },
    )
    .unwrap();
    assert_eq!(info.interval_name, "A");
}
