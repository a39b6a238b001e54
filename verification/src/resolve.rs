//! The active-screen resolver: given the schedule and a clock reading, which
//! screen is showing right now, and for how many more seconds.
//!
//! Missing screen references degrade to the first configured screen with a
//! diagnostic title; they are never an error. Only a structurally empty
//! schedule (no screens at all, or a cycle with zero total duration) resolves
//! to `None`.

use vstd::prelude::*;
use crate::config::{
    ScheduleConfig, TimeInterval, IntervalMode, ScreenConfig, ClockTime, Rgba8, CycleStep,
    first_covering, next_start_after, find_screen, lookup_screen, next_start_from,
};
use crate::cycle::{total_minutes, prefix_minutes, step_index, cycle_total, locate_step};
use crate::text::dec_digits;
use crate::text::decimal_string;
use vstd::arithmetic::div_mod::{lemma_mod_division_less_than_divisor, lemma_mod_decreases};

verus! {

/// What the resolver reports for the active screen. Transient: recomputed on
/// every evaluation, never persisted.
#[derive(Debug, Clone)]
pub struct ActiveScreenInfo {
    pub title: String,
    pub subtitle: String,
    pub color: Rgba8,
    pub remaining_seconds: u64,
    pub interval_name: String,
    pub screen_id: u32,
    pub is_default_screen: bool,
}

/// The mathematical model of a resolver result.
pub ghost struct ActiveScreenView {
    pub title: Seq<char>,
    pub subtitle: Seq<char>,
    pub color: Rgba8,
    pub remaining_seconds: int,
    pub interval_name: Seq<char>,
    pub screen_id: u32,
    pub is_default_screen: bool,
}

impl View for ActiveScreenInfo {
    type V = ActiveScreenView;

    open spec fn view(&self) -> ActiveScreenView {
        ActiveScreenView {
            title: self.title@,
            subtitle: self.subtitle@,
            color: self.color,
            remaining_seconds: self.remaining_seconds as int,
            interval_name: self.interval_name@,
            screen_id: self.screen_id,
            is_default_screen: self.is_default_screen,
        }
    }
}

/// Seconds left when `remaining_min` whole minutes remain and the clock shows
/// `sec` seconds: the count runs to the next minute boundary first, so it is
/// at least 1 whenever `sec <= 59`.
pub open spec fn remaining_secs(remaining_min: int, sec: int) -> int {
    if remaining_min > 0 {
        (remaining_min - 1) * 60 + (60 - sec)
    } else {
        60 - sec
    }
}

/// The subtitle annotation for an interval in static mode.
pub open spec fn static_subtitle(subtitle: Seq<char>) -> Seq<char> {
    subtitle + " (static mode)"@
}

/// The diagnostic title shown when a referenced screen id does not resolve.
pub open spec fn missing_title(id: u32) -> Seq<char> {
    "Screen not found (ID: "@ + dec_digits(id as nat) + ")"@
}

/// The subtitle shown alongside a diagnostic title.
pub open spec fn fallback_subtitle() -> Seq<char> {
    "Showing the first configured screen"@
}

/// The interval-name label reported outside every interval.
pub open spec fn waiting_label() -> Seq<char> {
    "Waiting"@
}

/// The step position annotation for a cycle interval: 1-based step index and
/// step count.
pub open spec fn step_info_text(k: int, n: int) -> Seq<char> {
    "Step "@ + dec_digits((k + 1) as nat) + "/"@ + dec_digits(n as nat) + " (cycle)"@
}

/// The subtitle for a cycle step: the screen's own subtitle, when it has one,
/// joined with the step position annotation.
pub open spec fn cycle_subtitle(subtitle: Seq<char>, k: int, n: int) -> Seq<char> {
    if subtitle.len() == 0 {
        step_info_text(k, n)
    } else {
        subtitle + " — "@ + step_info_text(k, n)
    }
}

/// The first configured screen, if any: the fallback for unresolvable
/// references and for a missing default.
pub open spec fn first_screen(screens: Seq<ScreenConfig>) -> Option<ScreenConfig> {
    if screens.len() == 0 {
        None
    } else {
        Some(screens[0])
    }
}

/// The result inside an interval in static mode.
pub open spec fn spec_static_result(
    cfg: ScheduleConfig,
    iv: TimeInterval,
    screen_id: u32,
    now_min: int,
    sec: int,
) -> Option<ActiveScreenView> {
    let end = iv.end.spec_minutes();
    let rm = if end > now_min {
        end - now_min
    } else {
        0
    };
    let secs = remaining_secs(rm, sec);
    match find_screen(cfg.screens@, screen_id) {
        Some(s) => Some(
            ActiveScreenView {
                title: s.title@,
                subtitle: static_subtitle(s.subtitle@),
                color: s.color,
                remaining_seconds: secs,
                interval_name: iv.name@,
                screen_id: s.id,
                is_default_screen: false,
            },
        ),
        None => match first_screen(cfg.screens@) {
            None => None,
            Some(first) => Some(
                ActiveScreenView {
                    title: missing_title(screen_id),
                    subtitle: fallback_subtitle(),
                    color: first.color,
                    remaining_seconds: secs,
                    interval_name: iv.name@,
                    screen_id: first.id,
                    is_default_screen: false,
                },
            ),
        },
    }
}

/// The result inside an interval in cycle mode: the position in the cycle
/// restarts every `total_minutes(steps)` minutes from the interval start, and
/// a step is truncated when the interval ends mid-step.
pub open spec fn spec_cycle_result(
    cfg: ScheduleConfig,
    iv: TimeInterval,
    steps: Seq<CycleStep>,
    now_min: int,
    sec: int,
) -> Option<ActiveScreenView> {
    let start = iv.start.spec_minutes();
    let end = iv.end.spec_minutes();
    let total = total_minutes(steps);
    if steps.len() == 0 || total <= 0 {
        None
    } else {
        let pos = (now_min - start) % total;
        let k = step_index(steps, pos);
        let boundary = prefix_minutes(steps, k + 1);
        let in_step = boundary - pos;
        let to_end = end - now_min;
        let rm = if in_step < to_end {
            in_step
        } else {
            to_end
        };
        let secs = remaining_secs(rm, sec);
        match find_screen(cfg.screens@, steps[k].screen_id) {
            Some(s) => Some(
                ActiveScreenView {
                    title: s.title@,
                    subtitle: cycle_subtitle(s.subtitle@, k, steps.len() as int),
                    color: s.color,
                    remaining_seconds: secs,
                    interval_name: iv.name@,
                    screen_id: s.id,
                    is_default_screen: false,
                },
            ),
            None => match first_screen(cfg.screens@) {
                None => None,
                Some(first) => Some(
                    ActiveScreenView {
                        title: missing_title(steps[k].screen_id),
                        subtitle: fallback_subtitle(),
                        color: first.color,
                        remaining_seconds: secs,
                        interval_name: iv.name@,
                        screen_id: first.id,
                        is_default_screen: false,
                    },
                ),
            },
        }
    }
}

/// The result inside the covering interval, dispatched on its mode.
pub open spec fn spec_in_interval(
    cfg: ScheduleConfig,
    iv: TimeInterval,
    now_min: int,
    sec: int,
) -> Option<ActiveScreenView> {
    match iv.mode {
        IntervalMode::Static { screen_id } => spec_static_result(cfg, iv, screen_id, now_min, sec),
        IntervalMode::Cycle { steps } => spec_cycle_result(cfg, iv, steps@, now_min, sec),
    }
}

/// The result outside every interval: the default screen (or the first one),
/// counting down to the nearest future interval start, or to midnight when
/// none remains today.
pub open spec fn spec_default_result(cfg: ScheduleConfig, now: ClockTime) -> Option<
    ActiveScreenView,
> {
    let m = now.spec_minutes();
    let chosen = match cfg.default_screen_id {
        Some(id) => match find_screen(cfg.screens@, id) {
            Some(s) => Some(s),
            None => first_screen(cfg.screens@),
        },
        None => first_screen(cfg.screens@),
    };
    match chosen {
        None => None,
        Some(s) => {
            let rm = match next_start_after(cfg.intervals@, m) {
                Some(ns) => ns - m,
                None => 1440 - m,
            };
            Some(
                ActiveScreenView {
                    title: s.title@,
                    subtitle: s.subtitle@,
                    color: s.color,
                    remaining_seconds: remaining_secs(rm, now.second as int),
                    interval_name: waiting_label(),
                    screen_id: s.id,
                    is_default_screen: true,
                },
            )
        },
    }
}

/// The full resolver: the first interval in list order covering the current
/// minute wins; outside every interval the default path applies.
pub open spec fn spec_resolve(cfg: ScheduleConfig, now: ClockTime) -> Option<ActiveScreenView> {
    match first_covering(cfg.intervals@, now.spec_minutes()) {
        Some(iv) => spec_in_interval(cfg, iv, now.spec_minutes(), now.second as int),
        None => spec_default_result(cfg, now),
    }
}

/// Converts whole remaining minutes and the current second to seconds,
/// counting to the next minute boundary first.
fn remaining_seconds_exec(remaining_min: u32, now_sec: u32) -> (s: u64)
    requires
        now_sec < 60,
    ensures
        s == remaining_secs(remaining_min as int, now_sec as int),
{
    if remaining_min > 0 {
        (remaining_min - 1) as u64 * 60 + (60 - now_sec as u64)
    } else {
        60 - now_sec as u64
    }
}

/// Builds the diagnostic result shown when a referenced screen id does not
/// resolve: the first configured screen with a placeholder title naming the
/// missing id.
fn missing_screen_info(
    cfg: &ScheduleConfig,
    missing_id: u32,
    seconds: u64,
    interval_name: &String,
) -> (r: Option<ActiveScreenInfo>)
    ensures
        match r {
            Some(info) => first_screen(cfg.screens@) matches Some(first) && info@
                == (ActiveScreenView {
                title: missing_title(missing_id),
                subtitle: fallback_subtitle(),
                color: first.color,
                remaining_seconds: seconds as int,
                interval_name: interval_name@,
                screen_id: first.id,
                is_default_screen: false,
            }),
            None => first_screen(cfg.screens@) is None,
        },
{
    if cfg.screens.len() == 0 {
        return None;
    }
    let first = &cfg.screens[0];
    let mut title = String::from_str("Screen not found (ID: ");
    let id_text = decimal_string(missing_id as u64);
    title.append(id_text.as_str());
    title.append(")");
    Some(
        ActiveScreenInfo {
            title,
            subtitle: String::from_str("Showing the first configured screen"),
            color: first.color,
            remaining_seconds: seconds,
            interval_name: interval_name.clone(),
            screen_id: first.id,
            is_default_screen: false,
        },
    )
}

/// Resolves the active screen inside a covering interval.
pub fn determine_screen_in_interval(
    cfg: &ScheduleConfig,
    interval: &TimeInterval,
    now_min: u32,
    now_sec: u32,
) -> (r: Option<ActiveScreenInfo>)
    requires
        interval.start.spec_minutes() <= now_min < interval.end.spec_minutes(),
        now_sec < 60,
    ensures
        match r {
            Some(info) => spec_in_interval(*cfg, *interval, now_min as int, now_sec as int)
                == Some(info@),
            None => spec_in_interval(*cfg, *interval, now_min as int, now_sec as int) is None,
        },
{
    let end_min = interval.end.to_minutes();
    match &interval.mode {
        IntervalMode::Static { screen_id } => {
            let remaining_min = if end_min > now_min {
                end_min - now_min
            } else {
                0
            };
            let seconds = remaining_seconds_exec(remaining_min, now_sec);
            match lookup_screen(&cfg.screens, *screen_id) {
                Some(screen) => {
                    let mut subtitle = screen.subtitle.clone();
                    subtitle.append(" (static mode)");
                    Some(
                        ActiveScreenInfo {
                            title: screen.title.clone(),
                            subtitle,
                            color: screen.color,
                            remaining_seconds: seconds,
                            interval_name: interval.name.clone(),
                            screen_id: screen.id,
                            is_default_screen: false,
                        },
                    )
                },
                None => missing_screen_info(cfg, *screen_id, seconds, &interval.name),
            }
        },
        IntervalMode::Cycle { steps } => {
            let start_min = interval.start.to_minutes();
            if steps.len() == 0 {
                return None;
            }
            let total = cycle_total(steps);
            if total == 0 {
                return None;
            }
            let elapsed = now_min - start_min;
            proof {
                lemma_mod_division_less_than_divisor(elapsed as int, total as int);
                lemma_mod_decreases(elapsed as nat, total as nat);
            }
            let pos = ((elapsed as u128) % total) as u32;
            let (k, boundary) = locate_step(steps, pos);
            let in_step = boundary - pos as u128;
            let to_end = (end_min - now_min) as u128;
            let rm = if in_step < to_end {
                in_step
            } else {
                to_end
            };
            let seconds = remaining_seconds_exec(rm as u32, now_sec);
            match lookup_screen(&cfg.screens, steps[k].screen_id) {
                Some(screen) => {
                    let k1 = k + 1;
                    let mut info = String::from_str("Step ");
                    let k_text = decimal_string(k1 as u64);
                    info.append(k_text.as_str());
                    info.append("/");
                    let n_text = decimal_string(steps.len() as u64);
                    info.append(n_text.as_str());
                    info.append(" (cycle)");
                    let subtitle = if screen.subtitle.as_str().is_empty() {
                        info
                    } else {
                        let mut s = screen.subtitle.clone();
                        s.append(" — ");
                        s.append(info.as_str());
                        s
                    };
                    Some(
                        ActiveScreenInfo {
                            title: screen.title.clone(),
                            subtitle,
                            color: screen.color,
                            remaining_seconds: seconds,
                            interval_name: interval.name.clone(),
                            screen_id: screen.id,
                            is_default_screen: false,
                        },
                    )
                },
                None => missing_screen_info(cfg, steps[k].screen_id, seconds, &interval.name),
            }
        },
    }
}

/// Resolves the active screen for the whole schedule: the first covering
/// interval in list order wins; outside every interval the default screen
/// counts down to the nearest future interval start, or to midnight.
pub fn determine_active_screen(cfg: &ScheduleConfig, now: ClockTime) -> (r: Option<
    ActiveScreenInfo,
>)
    requires
        now.wf(),
    ensures
        match r {
            Some(info) => spec_resolve(*cfg, now) == Some(info@),
            None => spec_resolve(*cfg, now) is None,
        },
{
    let now_min = now.minutes_of_day();
    let n = cfg.intervals.len();
    let mut i: usize = 0;
    proof {
        assert(cfg.intervals@.skip(0) =~= cfg.intervals@);
    }
    while i < n
        invariant
            0 <= i <= n,
            n == cfg.intervals@.len(),
            now_min == now.spec_minutes(),
            now.wf(),
            first_covering(cfg.intervals@, now_min as int) == first_covering(
                cfg.intervals@.skip(i as int),
                now_min as int,
            ),
        decreases n - i,
    {
        proof {
            assert(cfg.intervals@.skip(i as int)[0] == cfg.intervals@[i as int]);
        }
        let interval = &cfg.intervals[i];
        let start_min = interval.start.to_minutes();
        let end_min = interval.end.to_minutes();
        if start_min <= now_min && now_min < end_min {
            return determine_screen_in_interval(cfg, interval, now_min, now.second as u32);
        }
        proof {
            assert(cfg.intervals@.skip(i as int).skip(1) =~= cfg.intervals@.skip(i as int + 1));
        }
        i = i + 1;
    }
    proof {
        assert(cfg.intervals@.skip(i as int).len() == 0);
    }
    let screen_opt: Option<&ScreenConfig> = match cfg.default_screen_id {
        Some(id) => match lookup_screen(&cfg.screens, id) {
            Some(s) => Some(s),
            None => if cfg.screens.len() > 0 {
                Some(&cfg.screens[0])
            } else {
                None
            },
        },
        None => if cfg.screens.len() > 0 {
            Some(&cfg.screens[0])
        } else {
            None
        },
    };
    match screen_opt {
        None => None,
        Some(screen) => {
            let next_start = next_start_from(&cfg.intervals, 0, now_min);
            proof {
                assert(cfg.intervals@.skip(0) =~= cfg.intervals@);
            }
            let rm = match next_start {
                Some(ns) => ns - now_min,
                None => 1440 - now_min,
            };
            let seconds = remaining_seconds_exec(rm, now.second as u32);
            Some(
                ActiveScreenInfo {
                    title: screen.title.clone(),
                    subtitle: screen.subtitle.clone(),
                    color: screen.color,
                    remaining_seconds: seconds,
                    interval_name: String::from_str("Waiting"),
                    screen_id: screen.id,
                    is_default_screen: true,
                },
            )
        },
    }
}

} // verus!
