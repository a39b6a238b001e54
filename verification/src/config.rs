//! The domain model: screens, times of day, intervals and the schedule
//! configuration, together with the spec-level helpers that the resolver,
//! the transition calculator and the validator share.

use vstd::prelude::*;

verus! {

/// An RGBA color with 8 bits per channel; carried through unchanged for the
/// presentation layer.
#[derive(Debug, Clone, Copy, PartialEq, Eq, Structural)]
pub struct Rgba8 {
    pub r: u8,
    pub g: u8,
    pub b: u8,
    pub a: u8,
}

/// A named full-screen panel that the schedule can show.
#[derive(Debug, Clone)]
pub struct ScreenConfig {
    pub id: u32,
    pub title: String,
    pub subtitle: String,
    pub color: Rgba8,
}

/// A whole-minute point within a single 24-hour day.
#[derive(Debug, Clone, Copy, PartialEq, Eq, Structural)]
pub struct TimeOfDay {
    /// Expected range 0..=23.
    pub hour: u8,
    /// Expected range 0..=59.
    pub minute: u8,
}

impl TimeOfDay {
    /// The absolute minute offset from midnight; all interval comparisons
    /// happen on this scale.
    pub open spec fn spec_minutes(self) -> int {
        self.hour * 60 + self.minute
    }

    /// The fields lie within a day.
    pub open spec fn wf(self) -> bool {
        self.hour < 24 && self.minute < 60
    }

    pub fn to_minutes(self) -> (m: u32)
        ensures
            m == self.spec_minutes(),
    {
        self.hour as u32 * 60 + self.minute as u32
    }
}

/// A start and end time of day; `start` is expected to lie before `end`
/// within the same day.
#[derive(Debug, Clone, Copy, PartialEq, Eq, Structural)]
pub struct TimeRange {
    pub start: TimeOfDay,
    pub end: TimeOfDay,
}

/// One step of a repeating cycle: a screen shown for a number of minutes.
#[derive(Debug, Clone, Copy, PartialEq, Eq, Structural)]
pub struct CycleStep {
    pub screen_id: u32,
    pub duration_minutes: u32,
}

/// How an interval chooses its screen: one fixed screen for the whole
/// interval, or a repeating rotation through a list of steps.
#[derive(Debug, Clone)]
pub enum IntervalMode {
    Static { screen_id: u32 },
    Cycle { steps: Vec<CycleStep> },
}

/// A named span of the day with a display mode. The intended invariant
/// `start < end` is not enforced on construction; the validator flags
/// violations and resolution still runs best-effort.
#[derive(Debug, Clone)]
pub struct TimeInterval {
    pub id: u32,
    pub name: String,
    pub start: TimeOfDay,
    pub end: TimeOfDay,
    pub mode: IntervalMode,
}

/// The whole schedule: the screens, the intervals scanned in list order, and
/// an optional default screen shown outside every interval.
#[derive(Debug, Clone)]
pub struct ScheduleConfig {
    pub screens: Vec<ScreenConfig>,
    pub intervals: Vec<TimeInterval>,
    pub default_screen_id: Option<u32>,
}

/// A wall-clock reading at second granularity; seconds come only from the
/// clock, never from the schedule itself.
#[derive(Debug, Clone, Copy, PartialEq, Eq, Structural)]
pub struct ClockTime {
    /// Expected range 0..=23.
    pub hour: u8,
    /// Expected range 0..=59.
    pub minute: u8,
    /// Expected range 0..=59.
    pub second: u8,
}

impl ClockTime {
    /// The minute of the day this reading falls in.
    pub open spec fn spec_minutes(self) -> int {
        self.hour * 60 + self.minute
    }

    /// The second of the day, for comparing two readings.
    pub open spec fn spec_seconds(self) -> int {
        self.spec_minutes() * 60 + self.second
    }

    /// The fields lie within a day.
    pub open spec fn wf(self) -> bool {
        self.hour < 24 && self.minute < 60 && self.second < 60
    }

    pub fn minutes_of_day(self) -> (m: u32)
        ensures
            m == self.spec_minutes(),
    {
        self.hour as u32 * 60 + self.minute as u32
    }

    pub fn seconds_of_day(self) -> (s: u32)
        ensures
            s == self.spec_seconds(),
    {
        self.minutes_of_day() * 60 + self.second as u32
    }
}

/// An interval covers a minute when the minute lies in `[start, end)`.
pub open spec fn covers(iv: TimeInterval, minute: int) -> bool {
    iv.start.spec_minutes() <= minute < iv.end.spec_minutes()
}

/// The first interval in list order that covers the minute; first match wins,
/// overlapping intervals are a configuration defect the validator reports.
pub open spec fn first_covering(ivs: Seq<TimeInterval>, minute: int) -> Option<TimeInterval>
    decreases ivs.len(),
{
    if ivs.len() == 0 {
        None
    } else if covers(ivs[0], minute) {
        Some(ivs[0])
    } else {
        first_covering(ivs.skip(1), minute)
    }
}

/// The earliest interval start that lies strictly after the minute, over the
/// whole list.
pub open spec fn next_start_after(ivs: Seq<TimeInterval>, minute: int) -> Option<int>
    decreases ivs.len(),
{
    if ivs.len() == 0 {
        None
    } else {
        let s0 = ivs[0].start.spec_minutes();
        let rest = next_start_after(ivs.skip(1), minute);
        if s0 > minute {
            match rest {
                None => Some(s0),
                Some(r) => Some(if s0 < r { s0 } else { r }),
            }
        } else {
            rest
        }
    }
}

/// The first screen in list order with the given id.
pub open spec fn find_screen(screens: Seq<ScreenConfig>, id: u32) -> Option<ScreenConfig>
    decreases screens.len(),
{
    if screens.len() == 0 {
        None
    } else if screens[0].id == id {
        Some(screens[0])
    } else {
        find_screen(screens.skip(1), id)
    }
}

/// What the containment scan guarantees: a returned interval covers the
/// minute and is a member of the list; `None` means no interval covers it.
pub proof fn lemma_first_covering_props(ivs: Seq<TimeInterval>, m: int)
    ensures
        first_covering(ivs, m) matches Some(iv) ==> covers(iv, m) && exists|j: int|
            0 <= j < ivs.len() && ivs[j] == iv,
        first_covering(ivs, m) is None ==> forall|j: int|
            0 <= j < ivs.len() ==> !covers(#[trigger] ivs[j], m),
    decreases ivs.len(),
{
    if ivs.len() == 0 {
    } else if covers(ivs[0], m) {
        assert(first_covering(ivs, m) == Some(ivs[0]));
        assert(0 <= 0 < ivs.len() && ivs[0] == ivs[0]);
    } else {
        lemma_first_covering_props(ivs.skip(1), m);
        match first_covering(ivs.skip(1), m) {
            Some(iv) => {
                let j2 = choose|j: int| 0 <= j < ivs.skip(1).len() && ivs.skip(1)[j] == iv;
                assert(ivs[j2 + 1] == iv);
            },
            None => {
                assert forall|j: int| 0 <= j < ivs.len() implies !covers(
                    #[trigger] ivs[j],
                    m,
                ) by {
                    if j > 0 {
                        assert(ivs.skip(1)[j - 1] == ivs[j]);
                        assert(!covers(ivs.skip(1)[j - 1], m));
                    }
                }
            },
        }
    }
}

/// When exactly one list position covers the minute, the scan returns that
/// interval.
pub proof fn lemma_first_covering_unique(ivs: Seq<TimeInterval>, m: int, j: int)
    requires
        0 <= j < ivs.len(),
        covers(ivs[j], m),
        forall|l: int| 0 <= l < ivs.len() && l != j ==> !covers(#[trigger] ivs[l], m),
    ensures
        first_covering(ivs, m) == Some(ivs[j]),
    decreases j,
{
    if j == 0 {
    } else {
        assert(!covers(ivs[0], m));
        assert(ivs.skip(1)[j - 1] == ivs[j]);
        assert forall|l: int|
            0 <= l < ivs.skip(1).len() && l != j - 1 implies !covers(
            #[trigger] ivs.skip(1)[l],
            m,
        ) by {
            assert(ivs.skip(1)[l] == ivs[l + 1]);
        }
        lemma_first_covering_unique(ivs.skip(1), m, j - 1);
    }
}

/// What the next-start scan guarantees: a returned value is a start strictly
/// after the minute and minimal among them; `None` means no start lies
/// after.
pub proof fn lemma_next_start_props(ivs: Seq<TimeInterval>, m: int)
    ensures
        next_start_after(ivs, m) matches Some(ns) ==> ns > m && (exists|j: int|
            0 <= j < ivs.len() && (#[trigger] ivs[j]).start.spec_minutes() == ns) && (forall|
            j: int,
        |
            0 <= j < ivs.len() && (#[trigger] ivs[j]).start.spec_minutes() > m ==> ns <= ivs[
                j
            ].start.spec_minutes()),
        next_start_after(ivs, m) is None ==> forall|j: int|
            0 <= j < ivs.len() ==> (#[trigger] ivs[j]).start.spec_minutes() <= m,
    decreases ivs.len(),
{
    if ivs.len() == 0 {
    } else {
        lemma_next_start_props(ivs.skip(1), m);
        match next_start_after(ivs, m) {
            Some(ns) => {
                if ivs[0].start.spec_minutes() == ns {
                    assert(0 <= 0 < ivs.len() && ivs[0].start.spec_minutes() == ns);
                } else {
                    assert(next_start_after(ivs.skip(1), m) == Some(ns));
                    let j2 = choose|j: int|
                        0 <= j < ivs.skip(1).len() && (#[trigger] ivs.skip(1)[
                            j
                        ]).start.spec_minutes() == ns;
                    assert(ivs[j2 + 1] == ivs.skip(1)[j2]);
                    assert(ivs[j2 + 1].start.spec_minutes() == ns);
                }
                assert forall|j: int|
                    0 <= j < ivs.len() && (#[trigger] ivs[j]).start.spec_minutes()
                        > m implies ns <= ivs[j].start.spec_minutes() by {
                    if j > 0 {
                        assert(ivs.skip(1)[j - 1] == ivs[j]);
                        assert(ivs.skip(1)[j - 1].start.spec_minutes() == ivs[
                            j
                        ].start.spec_minutes());
                    }
                }
            },
            None => {
                assert forall|j: int|
                    0 <= j < ivs.len() implies (#[trigger] ivs[j]).start.spec_minutes() <= m by {
                    if j > 0 {
                        assert(ivs.skip(1)[j - 1] == ivs[j]);
                        assert(ivs.skip(1)[j - 1].start.spec_minutes() <= m);
                    }
                }
            },
        }
    }
}

/// Finds the earliest interval start strictly after the given minute,
/// scanning the list from index `i`. The bound on the result reflects the
/// largest minute value a `TimeOfDay` can denote (255 hours, 255 minutes).
pub fn next_start_from(intervals: &Vec<TimeInterval>, i: usize, m: u32) -> (r: Option<u32>)
    requires
        i <= intervals.len(),
    ensures
        match r {
            Some(c) => next_start_after(intervals@.skip(i as int), m as int) == Some(c as int)
                && m < c <= 15555,
            None => next_start_after(intervals@.skip(i as int), m as int) is None,
        },
    decreases intervals.len() - i,
{
    if i == intervals.len() {
        proof {
            assert(intervals@.skip(i as int).len() == 0);
        }
        None
    } else {
        proof {
            assert(intervals@.skip(i as int)[0] == intervals@[i as int]);
            assert(intervals@.skip(i as int).skip(1) =~= intervals@.skip(i as int + 1));
        }
        let s0 = intervals[i].start.to_minutes();
        let rest = next_start_from(intervals, i + 1, m);
        if s0 > m {
            match rest {
                None => Some(s0),
                Some(r) => Some(if s0 < r {
                    s0
                } else {
                    r
                }),
            }
        } else {
            rest
        }
    }
}

/// Looks a screen up by id, first match in list order.
pub fn lookup_screen(screens: &Vec<ScreenConfig>, id: u32) -> (r: Option<&ScreenConfig>)
    ensures
        match r {
            Some(s) => find_screen(screens@, id) == Some(*s),
            None => find_screen(screens@, id) is None,
        },
{
    let n = screens.len();
    let mut i: usize = 0;
    proof {
        assert(screens@.skip(0) =~= screens@);
    }
    while i < n
        invariant
            0 <= i <= n,
            n == screens@.len(),
            find_screen(screens@, id) == find_screen(screens@.skip(i as int), id),
        decreases n - i,
    {
        proof {
            assert(screens@.skip(i as int).len() > 0);
            assert(screens@.skip(i as int)[0] == screens@[i as int]);
        }
        if screens[i].id == id {
            return Some(&screens[i]);
        }
        proof {
            assert(screens@.skip(i as int).skip(1) =~= screens@.skip(i + 1));
        }
        i = i + 1;
    }
    proof {
        assert(screens@.skip(i as int).len() == 0);
    }
    None
}

/// Builds the starter schedule: three screens and two intervals — a static
/// morning block and an afternoon 25/5-minute cycle — with screen 1 as the
/// default.
pub fn default_schedule() -> (c: ScheduleConfig)
    ensures
        c.screens@.len() == 3,
        c.screens@[0].id == 1 && c.screens@[0].title@ == "Work"@ && c.screens@[0].subtitle@
            == "Focus"@ && c.screens@[0].color == (Rgba8 { r: 46, g: 204, b: 113, a: 255 }),
        c.screens@[1].id == 2 && c.screens@[1].title@ == "Break"@ && c.screens@[1].subtitle@
            == "Rest"@ && c.screens@[1].color == (Rgba8 { r: 231, g: 76, b: 60, a: 255 }),
        c.screens@[2].id == 3 && c.screens@[2].title@ == "Preparation"@ && c.screens@[2].subtitle@
            == ""@ && c.screens@[2].color == (Rgba8 { r: 52, g: 152, b: 219, a: 255 }),
        c.intervals@.len() == 2,
        c.intervals@[0].id == 1 && c.intervals@[0].name@ == "Morning work"@,
        c.intervals@[0].start == (TimeOfDay { hour: 9, minute: 0 }),
        c.intervals@[0].end == (TimeOfDay { hour: 12, minute: 0 }),
        c.intervals@[0].mode == (IntervalMode::Static { screen_id: 1u32 }),
        c.intervals@[1].id == 2 && c.intervals@[1].name@ == "Pomodoro session"@,
        c.intervals@[1].start == (TimeOfDay { hour: 14, minute: 0 }),
        c.intervals@[1].end == (TimeOfDay { hour: 18, minute: 0 }),
        c.intervals@[1].mode matches IntervalMode::Cycle { steps } && steps@.len() == 2 && steps@[0]
            == (CycleStep { screen_id: 1, duration_minutes: 25 }) && steps@[1] == (CycleStep {
            screen_id: 2,
            duration_minutes: 5,
        }),
        c.default_screen_id == Some(1u32),
{
    let mut screens: Vec<ScreenConfig> = Vec::new();
    screens.push(
        ScreenConfig {
            id: 1,
            title: String::from_str("Work"),
            subtitle: String::from_str("Focus"),
            color: Rgba8 { r: 46, g: 204, b: 113, a: 255 },
        },
    );
    screens.push(
        ScreenConfig {
            id: 2,
            title: String::from_str("Break"),
            subtitle: String::from_str("Rest"),
            color: Rgba8 { r: 231, g: 76, b: 60, a: 255 },
        },
    );
    screens.push(
        ScreenConfig {
            id: 3,
            title: String::from_str("Preparation"),
            subtitle: String::from_str(""),
            color: Rgba8 { r: 52, g: 152, b: 219, a: 255 },
        },
    );
    let mut steps: Vec<CycleStep> = Vec::new();
    steps.push(CycleStep { screen_id: 1, duration_minutes: 25 });
    steps.push(CycleStep { screen_id: 2, duration_minutes: 5 });
    let mut intervals: Vec<TimeInterval> = Vec::new();
    intervals.push(
        TimeInterval {
            id: 1,
            name: String::from_str("Morning work"),
            start: TimeOfDay { hour: 9, minute: 0 },
            end: TimeOfDay { hour: 12, minute: 0 },
            mode: IntervalMode::Static { screen_id: 1 },
        },
    );
    intervals.push(
        TimeInterval {
            id: 2,
            name: String::from_str("Pomodoro session"),
            start: TimeOfDay { hour: 14, minute: 0 },
            end: TimeOfDay { hour: 18, minute: 0 },
            mode: IntervalMode::Cycle { steps },
        },
    );
    ScheduleConfig { screens, intervals, default_screen_id: Some(1) }
}

} // verus!
