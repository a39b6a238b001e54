use flowtimer::config::{
    CycleStep, IntervalMode, ScheduleConfig, TimeInterval, TimeOfDay, default_schedule,
};
use flowtimer::daily::get_daily_transitions;

#[test]
fn daily_transitions_are_sorted_and_complete() {
    let cfg = default_schedule();
    let list = get_daily_transitions(&cfg);
    let minutes: Vec<u32> = list.iter().map(|e| e.0).collect();
    assert_eq!(minutes, vec![540, 720, 840, 865, 870, 1080]);
    for w in minutes.windows(2) {
        assert!(w[0] <= w[1]);
    }
}

#[test]
fn daily_transitions_describe_their_kind() {
    let cfg = default_schedule();
    let list = get_daily_transitions(&cfg);
    let kinds: Vec<&str> = list.iter().map(|e| e.2.as_str()).collect();
    assert_eq!(kinds, vec!["start", "end", "start", "step", "step", "end"]);
    assert_eq!(list[0].1, "Start: Morning work");
    assert_eq!(list[1].1, "End: Morning work");
    assert_eq!(list[2].1, "Start: Pomodoro session");
    assert_eq!(list[3].1, "Step 2/2 in 'Pomodoro session'");
    assert_eq!(list[4].1, "Step 1/2 in 'Pomodoro session'");
    assert_eq!(list[5].1, "End: Pomodoro session");
}

#[test]
fn step_boundary_at_interval_end_is_omitted() {
    let cfg = ScheduleConfig {
        screens: vec![],
        intervals: vec![TimeInterval {
            id: 1,
            name: "Tight".to_string(),
            start: TimeOfDay { hour: 9, minute: 0 },
            end: TimeOfDay { hour: 9, minute: 30 },
            mode: IntervalMode::Cycle {
                steps: vec![
                    CycleStep { screen_id: 1, duration_minutes: 15 },
                    CycleStep { screen_id: 2, duration_minutes: 15 },
                ],
            },
        }],
        default_screen_id: None,
    };
    let list = get_daily_transitions(&cfg);
    // start, the boundary after the first step, and the end; the boundary at
    // exactly the interval end is not emitted
    let minutes: Vec<u32> = list.iter().map(|e| e.0).collect();
    assert_eq!(minutes, vec![540, 555, 570]);
    assert_eq!(list[1].2, "step");
}

#[test]
fn emission_order_kept_among_equal_minutes() {
    let mk = |id: u32, name: &str, sh: u8, eh: u8| TimeInterval {
        id,
        name: name.to_string(),
        start: TimeOfDay { hour: sh, minute: 0 },
        end: TimeOfDay { hour: eh, minute: 0 },
        mode: IntervalMode::Static { screen_id: 1 },
    };
    let cfg = ScheduleConfig {
        screens: vec![],
        intervals: vec![mk(1, "A", 9, 10), mk(2, "B", 10, 11)],
        default_screen_id: None,
    };
    let list = get_daily_transitions(&cfg);
    // the end of A and the start of B share minute 600; A's end was emitted
    // first and stays first
    assert_eq!(list[1].0, 600);
    assert_eq!(list[1].1, "End: A");
    assert_eq!(list[2].0, 600);
    assert_eq!(list[2].1, "Start: B");
}
