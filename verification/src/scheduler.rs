//! The scheduler controller: a small state machine over `{Running, Paused}`
//! that an external tick source drives. On each eligible tick it recomputes
//! the active screen and the next transition from the caller-supplied clock
//! reading, and reports whether the active screen changed.
//!
//! The controller holds only derived cache; the configuration is read-only
//! for the duration of a tick and the caller owns the wall clock.

use vstd::prelude::*;
use crate::config::{ScheduleConfig, ClockTime};
use crate::resolve::{ActiveScreenInfo, spec_resolve, determine_active_screen};
use crate::transition::{spec_next_transition, calculate_next_transition};

verus! {

/// The id a resolver result reports, if any.
pub open spec fn opt_screen_id(r: Option<ActiveScreenInfo>) -> Option<u32> {
    match r {
        Some(info) => Some(info.screen_id),
        None => None,
    }
}

/// The scheduler's cached state between ticks.
#[derive(Debug, Clone)]
pub struct TimerState {
    /// The most recently resolved screen.
    pub current_screen: Option<ActiveScreenInfo>,
    /// The second of the day of the next transition, when one remains today.
    pub next_transition: Option<u32>,
    /// Running or paused; while paused the caller simply does not tick.
    pub is_running: bool,
    /// The caller-supplied wall-clock second of the last update.
    pub last_update: u64,
}

impl Default for TimerState {
    /// The initial state: nothing cached, running, never updated.
    fn default() -> (s: Self)
        ensures
            s.current_screen is None,
            s.next_transition is None,
            s.is_running,
            s.last_update == 0,
    {
        TimerState { current_screen: None, next_transition: None, is_running: true, last_update: 0 }
    }
}

/// The stateful scheduler driving the resolver and transition calculator.
pub struct TimerScheduler {
    pub state: TimerState,
}

impl TimerScheduler {
    pub fn new() -> (s: Self)
        ensures
            s.state.current_screen is None,
            s.state.next_transition is None,
            s.state.is_running,
            s.state.last_update == 0,
    {
        TimerScheduler { state: TimerState::default() }
    }

    /// Recomputes the cached screen and the next transition from the given
    /// clock reading; returns true iff the active screen's id differs from
    /// the one cached before this call. Pausing is untouched.
    pub fn update(&mut self, config: &ScheduleConfig, now: ClockTime, wall_secs: u64) -> (changed:
        bool)
        requires
            now.wf(),
        ensures
            (match final(self).state.current_screen {
                Some(info) => spec_resolve(*config, now) == Some(info@),
                None => spec_resolve(*config, now) is None,
            }),
            (match final(self).state.next_transition {
                Some(t) => spec_next_transition(*config, now) == Some(t as int),
                None => spec_next_transition(*config, now) is None,
            }),
            final(self).state.is_running == old(self).state.is_running,
            final(self).state.last_update == wall_secs,
            changed == (opt_screen_id(final(self).state.current_screen) != opt_screen_id(
                old(self).state.current_screen,
            )),
    {
        let prev_id: Option<u32> = match &self.state.current_screen {
            Some(s) => Some(s.screen_id),
            None => None,
        };
        self.state.current_screen = determine_active_screen(config, now);
        self.state.last_update = wall_secs;
        let cur_id: Option<u32> = match &self.state.current_screen {
            Some(s) => Some(s.screen_id),
            None => None,
        };
        let changed = match (prev_id, cur_id) {
            (Some(a), Some(b)) => a != b,
            (None, None) => false,
            _ => true,
        };
        self.state.next_transition = calculate_next_transition(config, now);
        changed
    }

    /// True iff the scheduler is running and at least one wall-clock second
    /// has passed since the last update: the throttle against redraw-heavy
    /// hosts.
    pub fn should_update(&self, wall_secs: u64) -> (r: bool)
        ensures
            r == (self.state.is_running && wall_secs >= self.state.last_update + 1),
    {
        self.state.is_running && wall_secs > self.state.last_update
    }

    /// Flips between running and paused. No other state changes: the wall
    /// clock keeps advancing, so resuming reflects real elapsed time.
    pub fn toggle_pause(&mut self)
        ensures
            final(self).state.is_running == !old(self).state.is_running,
            final(self).state.current_screen == old(self).state.current_screen,
            final(self).state.next_transition == old(self).state.next_transition,
            final(self).state.last_update == old(self).state.last_update,
    {
        self.state.is_running = !self.state.is_running;
    }

    /// Recomputes regardless of the throttle or the pause state: the manual
    /// refresh.
    pub fn force_update(&mut self, config: &ScheduleConfig, now: ClockTime, wall_secs: u64) -> (
        changed: bool)
        requires
            now.wf(),
        ensures
            (match final(self).state.current_screen {
                Some(info) => spec_resolve(*config, now) == Some(info@),
                None => spec_resolve(*config, now) is None,
            }),
            (match final(self).state.next_transition {
                Some(t) => spec_next_transition(*config, now) == Some(t as int),
                None => spec_next_transition(*config, now) is None,
            }),
            final(self).state.is_running == old(self).state.is_running,
            final(self).state.last_update == wall_secs,
            changed == (opt_screen_id(final(self).state.current_screen) != opt_screen_id(
                old(self).state.current_screen,
            )),
    {
        self.update(config, now, wall_secs)
    }
}

} // verus!
