use flowtimer::config::{ClockTime, default_schedule};
use flowtimer::scheduler::TimerScheduler;

fn clock(hour: u8, minute: u8, second: u8) -> ClockTime {
    ClockTime { hour, minute, second }
}

#[test]
fn first_update_reports_a_change() {
    let cfg = default_schedule();
    let mut sched = TimerScheduler::new();
    assert!(sched.state.current_screen.is_none());
    let changed = sched.update(&cfg, clock(10, 30, 0), 100);
    assert!(changed);
    let info = sched.state.current_screen.as_ref().unwrap();
    assert_eq!(info.screen_id, 1);
    assert_eq!(sched.state.next_transition, Some(12 * 3600));
    assert_eq!(sched.state.last_update, 100);
}

#[test]
fn unchanged_screen_reports_no_change() {
    let cfg = default_schedule();
    let mut sched = TimerScheduler::new();
    sched.update(&cfg, clock(10, 30, 0), 100);
    let changed = sched.update(&cfg, clock(10, 31, 0), 160);
    assert!(!changed);
}

#[test]
fn screen_switch_reports_a_change() {
    let cfg = default_schedule();
    let mut sched = TimerScheduler::new();
    sched.update(&cfg, clock(14, 24, 0), 100);
    // the pomodoro cycle flips from screen 1 to screen 2 at 14:25
    let changed = sched.update(&cfg, clock(14, 25, 0), 160);
    assert!(changed);
    assert_eq!(sched.state.current_screen.as_ref().unwrap().screen_id, 2);
}

#[test]
fn should_update_throttles_to_one_second() {
    let cfg = default_schedule();
    let mut sched = TimerScheduler::new();
    sched.update(&cfg, clock(10, 30, 0), 100);
    assert!(!sched.should_update(100));
    assert!(sched.should_update(101));
    assert!(sched.should_update(500));
}

#[test]
fn toggle_pause_flips_and_keeps_cache() {
    let cfg = default_schedule();
    let mut sched = TimerScheduler::new();
    sched.update(&cfg, clock(10, 30, 0), 100);
    assert!(sched.state.is_running);
    sched.toggle_pause();
    assert!(!sched.state.is_running);
    assert!(!sched.should_update(500));
    assert_eq!(sched.state.next_transition, Some(12 * 3600));
    sched.toggle_pause();
    assert!(sched.state.is_running);
}

#[test]
fn force_update_works_while_paused() {
    let cfg = default_schedule();
    let mut sched = TimerScheduler::new();
    sched.toggle_pause();
    let changed = sched.force_update(&cfg, clock(10, 30, 0), 100);
    assert!(changed);
    assert!(!sched.state.is_running);
    assert_eq!(sched.state.current_screen.as_ref().unwrap().screen_id, 1);
}
