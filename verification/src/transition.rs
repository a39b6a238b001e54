//! The transition calculator: when the active screen will next change,
//! expressed as a second of the current day.
//!
//! It mirrors the resolver's containment search but returns a point in time:
//! the interval end for static mode, the current step boundary (clamped to
//! the interval end) for cycle mode, and the start of the nearest future
//! interval outside every interval; `None` when nothing remains today.

use vstd::prelude::*;
use crate::config::{
    ScheduleConfig, TimeInterval, IntervalMode, ClockTime, CycleStep, first_covering,
    next_start_after, next_start_from,
};
use crate::cycle::{total_minutes, prefix_minutes, step_index, cycle_total, locate_step};
use vstd::arithmetic::div_mod::{lemma_mod_division_less_than_divisor, lemma_mod_decreases};

verus! {

/// The next transition while a cycle interval is active: the end of the
/// current step, measured from the clock reading, but never past the
/// interval's end.
pub open spec fn spec_cycle_transition(
    iv: TimeInterval,
    steps: Seq<CycleStep>,
    now: ClockTime,
) -> Option<int> {
    let start = iv.start.spec_minutes();
    let end = iv.end.spec_minutes();
    let total = total_minutes(steps);
    if steps.len() == 0 || total <= 0 {
        None
    } else {
        let pos = (now.spec_minutes() - start) % total;
        let boundary = prefix_minutes(steps, step_index(steps, pos) + 1);
        let step_end = now.spec_seconds() + (boundary - pos) * 60;
        let end_secs = end * 60;
        Some(
            if step_end < end_secs {
                step_end
            } else {
                end_secs
            },
        )
    }
}

/// The second of the day at which the active screen next changes, or `None`
/// when no transition remains today.
pub open spec fn spec_next_transition(cfg: ScheduleConfig, now: ClockTime) -> Option<int> {
    let m = now.spec_minutes();
    match first_covering(cfg.intervals@, m) {
        Some(iv) => match iv.mode {
            IntervalMode::Static { .. } => Some(iv.end.spec_minutes() * 60),
            IntervalMode::Cycle { steps } => spec_cycle_transition(iv, steps@, now),
        },
        None => match next_start_after(cfg.intervals@, m) {
            Some(ns) => Some(ns * 60),
            None => None,
        },
    }
}

/// Computes the second of the day at which the active screen next changes.
pub fn calculate_next_transition(cfg: &ScheduleConfig, now: ClockTime) -> (r: Option<u32>)
    requires
        now.wf(),
    ensures
        match r {
            Some(t) => spec_next_transition(*cfg, now) == Some(t as int),
            None => spec_next_transition(*cfg, now) is None,
        },
{
    let now_min = now.minutes_of_day();
    let n = cfg.intervals.len();
    let mut i: usize = 0;
    proof {
        assert(cfg.intervals@.skip(0) =~= cfg.intervals@);
    }
    while i < n
        invariant
            0 <= i <= n,
            n == cfg.intervals@.len(),
            now_min == now.spec_minutes(),
            now.wf(),
            first_covering(cfg.intervals@, now_min as int) == first_covering(
                cfg.intervals@.skip(i as int),
                now_min as int,
            ),
        decreases n - i,
    {
        proof {
            assert(cfg.intervals@.skip(i as int)[0] == cfg.intervals@[i as int]);
        }
        let interval = &cfg.intervals[i];
        let start_min = interval.start.to_minutes();
        let end_min = interval.end.to_minutes();
        if start_min <= now_min && now_min < end_min {
            match &interval.mode {
                IntervalMode::Static { .. } => {
                    return Some(end_min * 60);
                },
                IntervalMode::Cycle { steps } => {
                    if steps.len() == 0 {
                        return None;
                    }
                    let total = cycle_total(steps);
                    if total == 0 {
                        return None;
                    }
                    let elapsed = now_min - start_min;
                    proof {
                        lemma_mod_division_less_than_divisor(elapsed as int, total as int);
                        lemma_mod_decreases(elapsed as nat, total as nat);
                    }
                    let pos = ((elapsed as u128) % total) as u32;
                    let (k, boundary) = locate_step(steps, pos);
                    proof {
                        crate::cycle::lemma_prefix_bound(steps@, k as int + 1);
                    }
                    let step_end = now.seconds_of_day() as u128 + (boundary - pos as u128) * 60;
                    let end_secs = end_min as u128 * 60;
                    let t = if step_end < end_secs {
                        step_end
                    } else {
                        end_secs
                    };
                    return Some(t as u32);
                },
            }
        }
        proof {
            assert(cfg.intervals@.skip(i as int).skip(1) =~= cfg.intervals@.skip(i as int + 1));
        }
        i = i + 1;
    }
    proof {
        assert(cfg.intervals@.skip(i as int).len() == 0);
    }
    match next_start_from(&cfg.intervals, 0, now_min) {
        Some(ns) => {
            proof {
                assert(cfg.intervals@.skip(0) =~= cfg.intervals@);
            }
            Some(ns * 60)
        },
        None => {
            proof {
                assert(cfg.intervals@.skip(0) =~= cfg.intervals@);
            }
            None
        },
    }
}

} // verus!
