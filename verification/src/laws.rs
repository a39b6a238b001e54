//! The laws the engine keeps, stated over the resolver's and the transition
//! calculator's models and proved once for every schedule: totality of
//! resolution on consistent schedules, cycle wraparound, and consistency
//! between the resolver and the transition calculator.

use vstd::prelude::*;
use crate::config::{
    ScheduleConfig, TimeInterval, IntervalMode, ClockTime, CycleStep, first_covering, covers,
    next_start_after, lemma_first_covering_props, lemma_first_covering_unique,
    lemma_next_start_props,
};
use crate::cycle::{
    total_minutes, prefix_minutes, step_index, lemma_step_index_props, lemma_step_index_char,
};
use crate::resolve::{spec_resolve, spec_in_interval};
use crate::transition::spec_next_transition;
use crate::validate::{spec_validate, lemma_valid_schedule, overlaps};
use vstd::arithmetic::div_mod::{lemma_mod_division_less_than_divisor, lemma_mod_multiples_vanish, lemma_add_mod_noop, lemma_small_mod};

verus! {

/// For every consistent schedule with at least one screen, the resolver
/// reports a screen at every time of day, always with at least one
/// remaining second.
pub proof fn lemma_resolve_always_some(cfg: ScheduleConfig, now: ClockTime)
    requires
        now.wf(),
        spec_validate(cfg.intervals@).len() == 0,
        cfg.screens@.len() > 0,
    ensures
        spec_resolve(cfg, now) is Some,
        spec_resolve(cfg, now)->0.remaining_seconds >= 1,
{
    let m = now.spec_minutes();
    lemma_valid_schedule(cfg.intervals@);
    lemma_first_covering_props(cfg.intervals@, m);
    match first_covering(cfg.intervals@, m) {
        Some(iv) => {
            let j = choose|j: int| 0 <= j < cfg.intervals@.len() && cfg.intervals@[j] == iv;
            assert(cfg.intervals@[j] == iv);
            match iv.mode {
                IntervalMode::Static { screen_id } => {},
                IntervalMode::Cycle { steps } => {
                    let t = total_minutes(steps@);
                    assert(steps@.len() > 0 && t > 0);
                    let pos = (m - iv.start.spec_minutes()) % t;
                    lemma_mod_division_less_than_divisor(m - iv.start.spec_minutes(), t);
                    lemma_step_index_props(steps@, pos);
                },
            }
        },
        None => {
            lemma_next_start_props(cfg.intervals@, m);
        },
    }
}

/// Cycle wraparound: while a cycle interval is active, two minutes a whole
/// number of cycle lengths apart select the same step, and the resolver
/// reports the same screen for both (only the remaining time differs).
pub proof fn lemma_cycle_wraparound(
    cfg: ScheduleConfig,
    iv: TimeInterval,
    m1: int,
    m2: int,
    k: int,
    sec: int,
)
    requires
        iv.mode is Cycle,
        total_minutes(iv.mode->steps@) > 0,
        iv.start.spec_minutes() <= m1 < iv.end.spec_minutes(),
        iv.start.spec_minutes() <= m2 < iv.end.spec_minutes(),
        k >= 0,
        m2 == m1 + k * total_minutes(iv.mode->steps@),
    ensures
        step_index(
            iv.mode->steps@,
            (m2 - iv.start.spec_minutes()) % total_minutes(iv.mode->steps@),
        ) == step_index(
            iv.mode->steps@,
            (m1 - iv.start.spec_minutes()) % total_minutes(iv.mode->steps@),
        ),
        (spec_in_interval(cfg, iv, m1, sec) is Some) == (spec_in_interval(cfg, iv, m2, sec)
            is Some),
        spec_in_interval(cfg, iv, m1, sec) is Some ==> {
            let a = spec_in_interval(cfg, iv, m1, sec)->0;
            let b = spec_in_interval(cfg, iv, m2, sec)->0;
            a.screen_id == b.screen_id && a.title == b.title && a.subtitle == b.subtitle
                && a.interval_name == b.interval_name
        },
{
    let steps = iv.mode->steps@;
    let t = total_minutes(steps);
    let s = iv.start.spec_minutes();
    lemma_mod_multiples_vanish(k, m1 - s, t);
    assert(t * k == k * t) by (nonlinear_arith);
    assert(m2 - s == t * k + (m1 - s));
    assert((m2 - s) % t == (m1 - s) % t);
}

/// Purity of resolution: any two results that satisfy the resolver's
/// contract for the same configuration and clock reading are the same
/// result. Evaluating twice with identical inputs changes nothing.
pub proof fn lemma_resolve_deterministic(
    cfg: ScheduleConfig,
    now: ClockTime,
    r1: Option<crate::resolve::ActiveScreenInfo>,
    r2: Option<crate::resolve::ActiveScreenInfo>,
)
    requires
        (match r1 {
            Some(info) => spec_resolve(cfg, now) == Some(info@),
            None => spec_resolve(cfg, now) is None,
        }),
        (match r2 {
            Some(info) => spec_resolve(cfg, now) == Some(info@),
            None => spec_resolve(cfg, now) is None,
        }),
    ensures
        (r1 is Some) == (r2 is Some),
        r1 is Some && r2 is Some ==> (r1->0)@ == (r2->0)@,
{
}

/// Purity of the transition calculator: any two results that satisfy its
/// contract for the same configuration and clock reading are equal.
pub proof fn lemma_next_transition_deterministic(
    cfg: ScheduleConfig,
    now: ClockTime,
    r1: Option<u32>,
    r2: Option<u32>,
)
    requires
        (match r1 {
            Some(t) => spec_next_transition(cfg, now) == Some(t as int),
            None => spec_next_transition(cfg, now) is None,
        }),
        (match r2 {
            Some(t) => spec_next_transition(cfg, now) == Some(t as int),
            None => spec_next_transition(cfg, now) is None,
        }),
    ensures
        r1 == r2,
{
}

/// Nothing covers the minute, so the containment scan returns `None`.
proof fn lemma_no_cover_means_none(ivs: Seq<TimeInterval>, m: int)
    requires
        forall|j: int| 0 <= j < ivs.len() ==> !covers(#[trigger] ivs[j], m),
    ensures
        first_covering(ivs, m) is None,
{
    lemma_first_covering_props(ivs, m);
    if first_covering(ivs, m) is Some {
        let iv = first_covering(ivs, m)->0;
        let j = choose|j: int| 0 <= j < ivs.len() && ivs[j] == iv;
        assert(!covers(ivs[j], m));
        assert(false);
    }
}

/// In a consistent schedule, a second evaluation whose minute the same
/// interval covers resolves through that interval again.
proof fn lemma_same_interval(ivs: Seq<TimeInterval>, j: int, m: int)
    requires
        0 <= j < ivs.len(),
        covers(ivs[j], m),
        forall|a: int, b: int|
            0 <= a < ivs.len() && 0 <= b < ivs.len() && a != b ==> !overlaps(
                #[trigger] ivs[a],
                #[trigger] ivs[b],
            ),
    ensures
        first_covering(ivs, m) == Some(ivs[j]),
{
    assert forall|l: int| 0 <= l < ivs.len() && l != j implies !covers(#[trigger] ivs[l], m) by {
        if covers(ivs[l], m) {
            assert(overlaps(ivs[l], ivs[j]));
        }
    }
    lemma_first_covering_unique(ivs, m, j);
}

/// Advancing by fewer minutes than remain in the current step keeps the
/// cycle position inside that step.
proof fn lemma_step_persists(steps: Seq<CycleStep>, elapsed1: int, d: int)
    requires
        total_minutes(steps) > 0,
        elapsed1 >= 0,
        0 <= d,
        elapsed1 % total_minutes(steps) + d < prefix_minutes(
            steps,
            step_index(steps, elapsed1 % total_minutes(steps)) + 1,
        ),
    ensures
        (elapsed1 + d) % total_minutes(steps) == elapsed1 % total_minutes(steps) + d,
        step_index(steps, (elapsed1 + d) % total_minutes(steps)) == step_index(
            steps,
            elapsed1 % total_minutes(steps),
        ),
{
    let t = total_minutes(steps);
    let pos = elapsed1 % t;
    lemma_mod_division_less_than_divisor(elapsed1, t);
    lemma_step_index_props(steps, pos);
    let kidx = step_index(steps, pos);
    crate::cycle::lemma_total_split(steps, kidx + 1);
    crate::cycle::lemma_total_nonneg(steps.skip(kidx + 1));
    lemma_add_mod_noop(elapsed1, d, t);
    lemma_small_mod(d as nat, t as nat);
    lemma_small_mod((pos + d) as nat, t as nat);
    assert((elapsed1 + d) % t == pos + d);
    lemma_step_index_char(steps, pos + d, kidx);
}

/// No missed transition: when two evaluations of a consistent schedule
/// report different screen ids, the transition computed at the earlier one
/// has already passed by the later one — provided the computed transition
/// falls on a minute boundary. (Inside a cycle, a transition computed at a
/// nonzero second inherits those seconds, and can name a moment up to a
/// minute after the screen actually changes; such timestamps are excluded
/// here.)
#[verifier::spinoff_prover]
#[verifier::rlimit(50)]
pub proof fn lemma_no_missed_transition(cfg: ScheduleConfig, t1: ClockTime, t2: ClockTime)
    requires
        t1.wf(),
        t2.wf(),
        spec_validate(cfg.intervals@).len() == 0,
        t1.spec_seconds() < t2.spec_seconds(),
        spec_resolve(cfg, t1) is Some,
        spec_resolve(cfg, t2) is Some,
        spec_resolve(cfg, t1)->0.screen_id != spec_resolve(cfg, t2)->0.screen_id,
        spec_next_transition(cfg, t1) matches Some(ts) ==> ts % 60 == 0,
    ensures
        spec_next_transition(cfg, t1) is Some,
        spec_next_transition(cfg, t1)->0 <= t2.spec_seconds(),
{
    let ivs = cfg.intervals@;
    let m1 = t1.spec_minutes();
    let m2 = t2.spec_minutes();
    let s1 = t1.second as int;
    let s2 = t2.second as int;
    assert(m1 <= m2);
    lemma_valid_schedule(ivs);
    lemma_first_covering_props(ivs, m1);
    match first_covering(ivs, m1) {
        Some(iv) => {
            let j = choose|j: int| 0 <= j < ivs.len() && ivs[j] == iv;
            assert(ivs[j] == iv);
            match iv.mode {
                IntervalMode::Static { screen_id } => {
                    let end = iv.end.spec_minutes();
                    if t2.spec_seconds() < end * 60 {
                        assert(m2 < end);
                        assert(covers(ivs[j], m2));
                        lemma_same_interval(ivs, j, m2);
                        assert(false);
                    }
                },
                IntervalMode::Cycle { steps } => {
                    let start = iv.start.spec_minutes();
                    let end = iv.end.spec_minutes();
                    let t = total_minutes(steps@);
                    assert(steps@.len() > 0 && t > 0);
                    let elapsed1 = m1 - start;
                    let pos = elapsed1 % t;
                    lemma_mod_division_less_than_divisor(elapsed1, t);
                    lemma_step_index_props(steps@, pos);
                    let kidx = step_index(steps@, pos);
                    let boundary = prefix_minutes(steps@, kidx + 1);
                    crate::cycle::lemma_total_split(steps@, kidx + 1);
                    crate::cycle::lemma_total_nonneg(steps@.skip(kidx + 1));
                    assert(boundary <= t);
                    let delta = boundary - pos;
                    let step_end = t1.spec_seconds() + delta * 60;
                    let end_secs = end * 60;
                    let ts = if step_end < end_secs {
                        step_end
                    } else {
                        end_secs
                    };
                    assert(spec_next_transition(cfg, t1) == Some(ts));
                    if t2.spec_seconds() < ts {
                        // the later evaluation still lies in the same interval
                        assert(ts <= end_secs);
                        assert(m2 < end);
                        assert(covers(ivs[j], m2));
                        lemma_same_interval(ivs, j, m2);
                        // and within the same step of the cycle
                        let d = m2 - m1;
                        if step_end < end_secs {
                            // ts == step_end, so the minute-alignment premise
                            // forces the first reading onto a minute boundary
                            assert(ts % 60 == 0);
                            assert(ts == (m1 + delta) * 60 + s1);
                            assert((m1 + delta) * 60 % 60 == 0) by (nonlinear_arith);
                            assert(s1 == 0);
                            assert(m2 * 60 + s2 < (m1 + delta) * 60);
                            assert(d < delta);
                        } else {
                            assert(end_secs <= step_end);
                            assert(end * 60 <= (m1 + delta) * 60 + s1);
                            assert(end <= m1 + delta);
                            assert(d < delta);
                        }
                        let elapsed2 = m2 - start;
                        lemma_step_persists(steps@, elapsed1, d);
                        assert(step_index(steps@, elapsed2 % t) == kidx);
                        assert(false);
                    }
                },
            }
        },
        None => {
            lemma_next_start_props(ivs, m1);
            match next_start_after(ivs, m1) {
                Some(ns) => {
                    if t2.spec_seconds() < ns * 60 {
                        assert(m2 < ns);
                        assert forall|l: int| 0 <= l < ivs.len() implies !covers(
                            #[trigger] ivs[l],
                            m2,
                        ) by {
                            if covers(ivs[l], m2) {
                                if ivs[l].start.spec_minutes() <= m1 {
                                    assert(covers(ivs[l], m1));
                                } else {
                                    assert(ns <= ivs[l].start.spec_minutes());
                                }
                            }
                        }
                        lemma_no_cover_means_none(ivs, m2);
                        assert(false);
                    }
                },
                None => {
                    assert forall|l: int| 0 <= l < ivs.len() implies !covers(
                        #[trigger] ivs[l],
                        m2,
                    ) by {
                        if covers(ivs[l], m2) {
                            assert(ivs[l].start.spec_minutes() <= m1);
                            assert(covers(ivs[l], m1));
                        }
                    }
                    lemma_no_cover_means_none(ivs, m2);
                    assert(false);
                },
            }
        },
    }
}

} // verus!
