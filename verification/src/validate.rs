//! The interval validator: static consistency checks over the interval list.
//!
//! For every interval it flags an inverted (or zero-length) span, a pairwise
//! overlap against every other interval (both orders of every violating pair
//! are reported), an empty cycle, and a cycle whose steps sum to zero.
//! Validation only reports; resolution still runs best-effort against a
//! defective configuration.

use vstd::prelude::*;
use crate::config::{TimeInterval, IntervalMode};
use crate::cycle::{total_minutes, cycle_total, lemma_total_nonneg};

verus! {

/// Two intervals overlap when each one starts before the other ends. The
/// condition is symmetric in its two arguments.
pub open spec fn overlaps(a: TimeInterval, b: TimeInterval) -> bool {
    a.start.spec_minutes() < b.end.spec_minutes() && a.end.spec_minutes() > b.start.spec_minutes()
}

/// The message flagging an inverted or zero-length interval.
pub open spec fn inverted_msg(name: Seq<char>) -> Seq<char> {
    "Interval '"@ + name + "': start time must be earlier than end time"@
}

/// The message flagging a pair of overlapping intervals.
pub open spec fn overlap_msg(a: Seq<char>, b: Seq<char>) -> Seq<char> {
    "Intervals '"@ + a + "' and '"@ + b + "' overlap in time"@
}

/// The message flagging a cycle with no steps.
pub open spec fn empty_cycle_msg(name: Seq<char>) -> Seq<char> {
    "Interval '"@ + name + "': cycle mode must contain at least one step"@
}

/// The message flagging a cycle whose step durations sum to zero.
pub open spec fn zero_cycle_msg(name: Seq<char>) -> Seq<char> {
    "Interval '"@ + name + "': total step duration must not be zero"@
}

/// The inverted-interval messages for interval `i` (none or one).
pub open spec fn inverted_part(ivs: Seq<TimeInterval>, i: int) -> Seq<Seq<char>> {
    if ivs[i].start.spec_minutes() >= ivs[i].end.spec_minutes() {
        seq![inverted_msg(ivs[i].name@)]
    } else {
        Seq::<Seq<char>>::empty()
    }
}

/// The overlap messages for interval `i` against the others at indices below
/// `up_to`, in index order.
pub open spec fn overlap_msgs_upto(ivs: Seq<TimeInterval>, i: int, up_to: int) -> Seq<Seq<char>>
    decreases up_to,
{
    if up_to <= 0 {
        Seq::<Seq<char>>::empty()
    } else {
        overlap_msgs_upto(ivs, i, up_to - 1) + if up_to - 1 != i && overlaps(
            ivs[i],
            ivs[up_to - 1],
        ) {
            seq![overlap_msg(ivs[i].name@, ivs[up_to - 1].name@)]
        } else {
            Seq::<Seq<char>>::empty()
        }
    }
}

/// The mode messages for one interval: an empty cycle, or a cycle with zero
/// total duration.
pub open spec fn mode_msgs(iv: TimeInterval) -> Seq<Seq<char>> {
    match iv.mode {
        IntervalMode::Cycle { steps } => if steps@.len() == 0 {
            seq![empty_cycle_msg(iv.name@)]
        } else if total_minutes(steps@) == 0 {
            seq![zero_cycle_msg(iv.name@)]
        } else {
            Seq::<Seq<char>>::empty()
        },
        IntervalMode::Static { .. } => Seq::<Seq<char>>::empty(),
    }
}

/// All messages produced while checking interval `i`.
pub open spec fn interval_msgs(ivs: Seq<TimeInterval>, i: int) -> Seq<Seq<char>> {
    inverted_part(ivs, i) + overlap_msgs_upto(ivs, i, ivs.len() as int) + mode_msgs(ivs[i])
}

/// The messages produced while checking the first `i` intervals, in order.
pub open spec fn validate_upto(ivs: Seq<TimeInterval>, i: int) -> Seq<Seq<char>>
    decreases i,
{
    if i <= 0 {
        Seq::<Seq<char>>::empty()
    } else {
        validate_upto(ivs, i - 1) + interval_msgs(ivs, i - 1)
    }
}

/// The full list of violation messages; an empty list means the
/// configuration is consistent.
pub open spec fn spec_validate(ivs: Seq<TimeInterval>) -> Seq<Seq<char>> {
    validate_upto(ivs, ivs.len() as int)
}

/// Builds `"Interval '<name>'" + tail`.
fn named_msg(name: &String, tail: &'static str) -> (m: String)
    ensures
        m@ == "Interval '"@ + name@ + tail@,
{
    let mut s = String::from_str("Interval '");
    s.append(name.as_str());
    s.append(tail);
    s
}

/// Builds the overlap message for a pair of interval names.
fn overlap_msg_exec(a: &String, b: &String) -> (m: String)
    ensures
        m@ == overlap_msg(a@, b@),
{
    let mut s = String::from_str("Intervals '");
    s.append(a.as_str());
    s.append("' and '");
    s.append(b.as_str());
    s.append("' overlap in time");
    s
}

/// Checks every interval for an inverted span, overlaps with every other
/// interval, and degenerate cycle modes; returns one message per violation,
/// and an empty list for a consistent configuration.
pub fn validate_intervals(intervals: &Vec<TimeInterval>) -> (r: Vec<String>)
    ensures
        r.deep_view() == spec_validate(intervals@),
{
    let ghost ivs = intervals@;
    let mut out: Vec<String> = Vec::new();
    let n = intervals.len();
    let mut i: usize = 0;
    proof {
        assert(out.deep_view() =~= validate_upto(ivs, 0));
    }
    while i < n
        invariant
            0 <= i <= n,
            n == ivs.len(),
            ivs == intervals@,
            out.deep_view() == validate_upto(ivs, i as int),
        decreases n - i,
    {
        let interval = &intervals[i];
        let start_min = interval.start.to_minutes();
        let end_min = interval.end.to_minutes();
        if start_min >= end_min {
            let m = named_msg(&interval.name, "': start time must be earlier than end time");
            out.push(m);
        }
        proof {
            assert(out.deep_view() =~= validate_upto(ivs, i as int) + inverted_part(ivs, i as int)
                + overlap_msgs_upto(ivs, i as int, 0));
        }
        let mut j: usize = 0;
        while j < n
            invariant
                0 <= j <= n,
                0 <= i < n,
                n == ivs.len(),
                ivs == intervals@,
                start_min == ivs[i as int].start.spec_minutes(),
                end_min == ivs[i as int].end.spec_minutes(),
                *interval == ivs[i as int],
                out.deep_view() == validate_upto(ivs, i as int) + inverted_part(ivs, i as int)
                    + overlap_msgs_upto(ivs, i as int, j as int),
            decreases n - j,
        {
            if j != i {
                let other = &intervals[j];
                let other_start = other.start.to_minutes();
                let other_end = other.end.to_minutes();
                if start_min < other_end && end_min > other_start {
                    let m = overlap_msg_exec(&interval.name, &other.name);
                    out.push(m);
                }
            }
            proof {
                assert(validate_upto(ivs, i as int) + inverted_part(ivs, i as int)
                    + overlap_msgs_upto(ivs, i as int, j as int + 1) =~= (validate_upto(
                    ivs,
                    i as int,
                ) + inverted_part(ivs, i as int) + overlap_msgs_upto(ivs, i as int, j as int))
                    + (if j as int != i as int && overlaps(ivs[i as int], ivs[j as int]) {
                    seq![overlap_msg(ivs[i as int].name@, ivs[j as int].name@)]
                } else {
                    Seq::<Seq<char>>::empty()
                }));
            }
            j = j + 1;
        }
        match &interval.mode {
            IntervalMode::Cycle { steps } => {
                if steps.len() == 0 {
                    let m = named_msg(&interval.name, "': cycle mode must contain at least one step");
                    out.push(m);
                } else {
                    let total = cycle_total(steps);
                    if total == 0 {
                        let m = named_msg(&interval.name, "': total step duration must not be zero");
                        out.push(m);
                    }
                }
            },
            IntervalMode::Static { .. } => {},
        }
        proof {
            assert(validate_upto(ivs, i as int + 1) =~= (validate_upto(ivs, i as int)
                + inverted_part(ivs, i as int) + overlap_msgs_upto(ivs, i as int, n as int))
                + mode_msgs(ivs[i as int]));
        }
        i = i + 1;
    }
    out
}

proof fn lemma_overlap_upto_contains(ivs: Seq<TimeInterval>, i: int, j: int, up_to: int)
    requires
        0 <= i < ivs.len(),
        0 <= j < ivs.len(),
        j < up_to <= ivs.len(),
        j != i,
        overlaps(ivs[i], ivs[j]),
    ensures
        overlap_msgs_upto(ivs, i, up_to).contains(overlap_msg(ivs[i].name@, ivs[j].name@)),
    decreases up_to,
{
    let m = overlap_msg(ivs[i].name@, ivs[j].name@);
    let prev = overlap_msgs_upto(ivs, i, up_to - 1);
    if up_to - 1 == j {
        assert(overlap_msgs_upto(ivs, i, up_to)[prev.len() as int] == m);
    } else {
        lemma_overlap_upto_contains(ivs, i, j, up_to - 1);
        let w = choose|w: int| 0 <= w < prev.len() && prev[w] == m;
        assert(overlap_msgs_upto(ivs, i, up_to)[w] == m);
    }
}

proof fn lemma_validate_upto_contains(ivs: Seq<TimeInterval>, i: int, k: int, m: Seq<char>)
    requires
        0 <= i < k <= ivs.len(),
        interval_msgs(ivs, i).contains(m),
    ensures
        validate_upto(ivs, k).contains(m),
    decreases k,
{
    let prev = validate_upto(ivs, k - 1);
    if k - 1 == i {
        let w = choose|w: int| 0 <= w < interval_msgs(ivs, i).len() && interval_msgs(ivs, i)[w]
            == m;
        assert(validate_upto(ivs, k)[prev.len() + w] == m);
    } else {
        lemma_validate_upto_contains(ivs, i, k - 1, m);
        let w = choose|w: int| 0 <= w < prev.len() && prev[w] == m;
        assert(validate_upto(ivs, k)[w] == m);
    }
}

/// Validator symmetry: when two intervals overlap, the report names the pair
/// in both orders, wherever the two stand in the list.
pub proof fn lemma_validate_overlap_symmetry(ivs: Seq<TimeInterval>, i: int, j: int)
    requires
        0 <= i < ivs.len(),
        0 <= j < ivs.len(),
        i != j,
        overlaps(ivs[i], ivs[j]),
    ensures
        spec_validate(ivs).contains(overlap_msg(ivs[i].name@, ivs[j].name@)),
        spec_validate(ivs).contains(overlap_msg(ivs[j].name@, ivs[i].name@)),
{
    lemma_interval_contains_overlap(ivs, i, j);
    lemma_interval_contains_overlap(ivs, j, i);
    lemma_validate_upto_contains(ivs, i, ivs.len() as int, overlap_msg(ivs[i].name@, ivs[j].name@));
    lemma_validate_upto_contains(ivs, j, ivs.len() as int, overlap_msg(ivs[j].name@, ivs[i].name@));
}

proof fn lemma_interval_contains_overlap(ivs: Seq<TimeInterval>, i: int, j: int)
    requires
        0 <= i < ivs.len(),
        0 <= j < ivs.len(),
        i != j,
        overlaps(ivs[i], ivs[j]),
    ensures
        interval_msgs(ivs, i).contains(overlap_msg(ivs[i].name@, ivs[j].name@)),
{
    let m = overlap_msg(ivs[i].name@, ivs[j].name@);
    lemma_overlap_upto_contains(ivs, i, j, ivs.len() as int);
    let ov = overlap_msgs_upto(ivs, i, ivs.len() as int);
    let w = choose|w: int| 0 <= w < ov.len() && ov[w] == m;
    assert(interval_msgs(ivs, i)[inverted_part(ivs, i).len() + w] == m);
}

proof fn lemma_upto_len_bound(ivs: Seq<TimeInterval>, i: int, k: int)
    requires
        0 <= i < k <= ivs.len(),
    ensures
        validate_upto(ivs, k).len() >= interval_msgs(ivs, i).len(),
    decreases k,
{
    if k - 1 > i {
        lemma_upto_len_bound(ivs, i, k - 1);
    }
}

/// A configuration with no violation message has, for every interval, a
/// start strictly before its end and a cycle (where the mode is a cycle)
/// with at least one step and a positive total duration, and no two distinct
/// list positions overlap.
pub proof fn lemma_valid_schedule(ivs: Seq<TimeInterval>)
    requires
        spec_validate(ivs).len() == 0,
    ensures
        forall|i: int|
            0 <= i < ivs.len() ==> (#[trigger] ivs[i]).start.spec_minutes()
                < ivs[i].end.spec_minutes(),
        forall|i: int|
            0 <= i < ivs.len() ==> ((#[trigger] ivs[i]).mode matches IntervalMode::Cycle { steps }
                ==> steps@.len() > 0 && total_minutes(steps@) > 0),
        forall|i: int, j: int|
            0 <= i < ivs.len() && 0 <= j < ivs.len() && i != j ==> !overlaps(
                #[trigger] ivs[i],
                #[trigger] ivs[j],
            ),
{
    assert forall|i: int| 0 <= i < ivs.len() implies interval_msgs(ivs, i).len() == 0 by {
        lemma_upto_len_bound(ivs, i, ivs.len() as int);
    }
    assert forall|i: int| 0 <= i < ivs.len() implies (#[trigger] ivs[i]).start.spec_minutes()
        < ivs[i].end.spec_minutes() by {
        assert(interval_msgs(ivs, i).len() == 0);
        assert(inverted_part(ivs, i).len() == 0);
    }
    assert forall|i: int| 0 <= i < ivs.len() implies ((#[trigger] ivs[i]).mode matches
        IntervalMode::Cycle { steps } ==> steps@.len() > 0 && total_minutes(steps@) > 0) by {
        assert(interval_msgs(ivs, i).len() == 0);
        assert(mode_msgs(ivs[i]).len() == 0);
        match ivs[i].mode {
            IntervalMode::Cycle { steps } => {
                lemma_total_nonneg(steps@);
            },
            IntervalMode::Static { .. } => {},
        }
    }
    assert forall|i: int, j: int|
        0 <= i < ivs.len() && 0 <= j < ivs.len() && i != j implies !overlaps(
        #[trigger] ivs[i],
        #[trigger] ivs[j],
    ) by {
        if overlaps(ivs[i], ivs[j]) {
            lemma_overlap_upto_contains(ivs, i, j, ivs.len() as int);
            assert(interval_msgs(ivs, i).len() == 0);
            let ov = overlap_msgs_upto(ivs, i, ivs.len() as int);
            let m = overlap_msg(ivs[i].name@, ivs[j].name@);
            let w = choose|w: int| 0 <= w < ov.len() && ov[w] == m;
            assert(false);
        }
    }
}

} // verus!
