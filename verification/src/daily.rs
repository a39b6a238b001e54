//! The daily schedule builder: every transition point of the day — interval
//! starts, interval ends, and cycle step boundaries that fall strictly before
//! their interval's end — sorted ascending by minute of the day, with the
//! order of emission kept among equal minutes.
//!
//! Purely descriptive: the resolver and the transition calculator never
//! consume this list.

use vstd::prelude::*;
use crate::config::{ScheduleConfig, TimeInterval, IntervalMode, CycleStep};
use crate::cycle::{prefix_minutes, lemma_prefix_bound, lemma_prefix_succ};
use crate::text::{dec_digits, decimal_string};

verus! {

/// The description of an interval start.
pub open spec fn start_desc(name: Seq<char>) -> Seq<char> {
    "Start: "@ + name
}

/// The description of an interval end.
pub open spec fn end_desc(name: Seq<char>) -> Seq<char> {
    "End: "@ + name
}

/// The description of the boundary after step `k` (0-based) of `n` steps:
/// the 1-based index of the step being entered, wrapping at the cycle end.
pub open spec fn step_desc(k: int, n: int, name: Seq<char>) -> Seq<char> {
    "Step "@ + dec_digits((((k + 1) % n) + 1) as nat) + "/"@ + dec_digits(n as nat) + " in '"@
        + name + "'"@
}

/// The step-boundary entries of a cycle interval, for the first `k` steps:
/// one entry per prefix sum that falls strictly before the interval's end.
pub open spec fn step_entries_upto(iv: TimeInterval, steps: Seq<CycleStep>, k: int) -> Seq<
    (int, Seq<char>, Seq<char>),
>
    decreases k,
{
    if k <= 0 {
        Seq::<(int, Seq<char>, Seq<char>)>::empty()
    } else {
        step_entries_upto(iv, steps, k - 1) + ({
            let t = iv.start.spec_minutes() + prefix_minutes(steps, k);
            if t < iv.end.spec_minutes() {
                seq![(t, step_desc(k - 1, steps.len() as int, iv.name@), "step"@)]
            } else {
                Seq::<(int, Seq<char>, Seq<char>)>::empty()
            }
        })
    }
}

/// All entries one interval emits: its start, its end, and its step
/// boundaries when it cycles.
pub open spec fn entries_for(iv: TimeInterval) -> Seq<(int, Seq<char>, Seq<char>)> {
    seq![
        (iv.start.spec_minutes(), start_desc(iv.name@), "start"@),
        (iv.end.spec_minutes(), end_desc(iv.name@), "end"@),
    ] + match iv.mode {
        IntervalMode::Cycle { steps } => step_entries_upto(iv, steps@, steps@.len() as int),
        IntervalMode::Static { .. } => Seq::<(int, Seq<char>, Seq<char>)>::empty(),
    }
}

/// The entries emitted by the first `i` intervals, in emission order.
pub open spec fn emitted_upto(ivs: Seq<TimeInterval>, i: int) -> Seq<(int, Seq<char>, Seq<char>)>
    decreases i,
{
    if i <= 0 {
        Seq::<(int, Seq<char>, Seq<char>)>::empty()
    } else {
        emitted_upto(ivs, i - 1) + entries_for(ivs[i - 1])
    }
}

/// Everything the whole interval list emits, in emission order.
pub open spec fn spec_emitted(ivs: Seq<TimeInterval>) -> Seq<(int, Seq<char>, Seq<char>)> {
    emitted_upto(ivs, ivs.len() as int)
}

/// Stable insertion by minute: the new entry goes before the first entry
/// with a strictly later minute, so equal minutes keep emission order.
pub open spec fn insert_by_minute(
    s: Seq<(int, Seq<char>, Seq<char>)>,
    x: (int, Seq<char>, Seq<char>),
) -> Seq<(int, Seq<char>, Seq<char>)>
    decreases s.len(),
{
    if s.len() == 0 {
        seq![x]
    } else if s[0].0 <= x.0 {
        seq![s[0]] + insert_by_minute(s.skip(1), x)
    } else {
        seq![x] + s
    }
}

/// Stable sort by minute: entries inserted one at a time in emission order.
pub open spec fn sort_by_minute(s: Seq<(int, Seq<char>, Seq<char>)>) -> Seq<
    (int, Seq<char>, Seq<char>),
>
    decreases s.len(),
{
    if s.len() == 0 {
        Seq::<(int, Seq<char>, Seq<char>)>::empty()
    } else {
        insert_by_minute(sort_by_minute(s.drop_last()), s.last())
    }
}

/// The full daily transition list: everything emitted, stably sorted.
pub open spec fn spec_daily_transitions(ivs: Seq<TimeInterval>) -> Seq<
    (int, Seq<char>, Seq<char>),
> {
    sort_by_minute(spec_emitted(ivs))
}

/// Ascending by minute.
pub open spec fn sorted_by_minute(s: Seq<(int, Seq<char>, Seq<char>)>) -> bool {
    forall|a: int, b: int| 0 <= a < b < s.len() ==> (#[trigger] s[a]).0 <= (#[trigger] s[b]).0
}

/// The model of one executable entry.
pub open spec fn entry_model(e: (u32, String, String)) -> (int, Seq<char>, Seq<char>) {
    (e.0 as int, e.1@, e.2@)
}

/// An executable entry list matches its model elementwise.
pub open spec fn entries_match(
    v: Seq<(u32, String, String)>,
    s: Seq<(int, Seq<char>, Seq<char>)>,
) -> bool {
    v.len() == s.len() && forall|k: int|
        0 <= k < v.len() ==> entry_model(#[trigger] v[k]) == s[k]
}

/// Inserting before the first strictly-later entry is what
/// `insert_by_minute` does.
proof fn lemma_insert_position(
    s: Seq<(int, Seq<char>, Seq<char>)>,
    x: (int, Seq<char>, Seq<char>),
    p: int,
)
    requires
        0 <= p <= s.len(),
        forall|q: int| 0 <= q < p ==> (#[trigger] s[q]).0 <= x.0,
        p == s.len() || s[p].0 > x.0,
    ensures
        insert_by_minute(s, x) == s.insert(p, x),
    decreases p,
{
    if p == 0 {
        if s.len() == 0 {
            assert(insert_by_minute(s, x) =~= s.insert(0, x));
        } else {
            assert(insert_by_minute(s, x) =~= s.insert(0, x));
        }
    } else {
        assert(s[0].0 <= x.0);
        lemma_insert_position(s.skip(1), x, p - 1);
        assert(seq![s[0]] + s.skip(1).insert(p - 1, x) =~= s.insert(p, x));
    }
}

/// Inserting before the first strictly-later entry keeps the list sorted.
proof fn lemma_sorted_insert(
    s: Seq<(int, Seq<char>, Seq<char>)>,
    x: (int, Seq<char>, Seq<char>),
    p: int,
)
    requires
        sorted_by_minute(s),
        0 <= p <= s.len(),
        forall|q: int| 0 <= q < p ==> (#[trigger] s[q]).0 <= x.0,
        p == s.len() || s[p].0 > x.0,
    ensures
        sorted_by_minute(s.insert(p, x)),
{
    s.insert_ensures(p, x);
    let t = s.insert(p, x);
    assert forall|a: int, b: int| 0 <= a < b < t.len() implies (#[trigger] t[a]).0
        <= (#[trigger] t[b]).0 by {
        if a < p {
            assert(t[a] == s[a]);
        } else if a == p {
            assert(t[a] == x);
        } else {
            assert(t[a] == s[a - 1]);
        }
        if b < p {
            assert(t[b] == s[b]);
        } else if b == p {
            assert(t[b] == x);
        } else {
            assert(t[b] == s[b - 1]);
        }
    }
}

/// Builds the sorted list of the day's transition points: a start and an end
/// entry for every interval, and one entry per cycle step boundary that
/// falls strictly before its interval's end. Sorted ascending by minute,
/// with emission order kept among equal minutes.
#[verifier::rlimit(50)]
pub fn get_daily_transitions(cfg: &ScheduleConfig) -> (r: Vec<(u32, String, String)>)
    ensures
        entries_match(r@, spec_daily_transitions(cfg.intervals@)),
        forall|a: int, b: int|
            0 <= a < b < r@.len() ==> (#[trigger] r@[a]).0 <= (#[trigger] r@[b]).0,
{
    let ghost ivs = cfg.intervals@;
    let mut emitted: Vec<(u32, String, String)> = Vec::new();
    let n = cfg.intervals.len();
    let mut i: usize = 0;
    while i < n
        invariant
            0 <= i <= n,
            n == ivs.len(),
            ivs == cfg.intervals@,
            entries_match(emitted@, emitted_upto(ivs, i as int)),
        decreases n - i,
    {
        let interval = &cfg.intervals[i];
        let start_min = interval.start.to_minutes();
        let end_min = interval.end.to_minutes();
        let mut sd = String::from_str("Start: ");
        sd.append(interval.name.as_str());
        emitted.push((start_min, sd, String::from_str("start")));
        let mut ed = String::from_str("End: ");
        ed.append(interval.name.as_str());
        emitted.push((end_min, ed, String::from_str("end")));
        let ghost head = seq![
            (interval.start.spec_minutes(), start_desc(interval.name@), "start"@),
            (interval.end.spec_minutes(), end_desc(interval.name@), "end"@),
        ];
        proof {
            assert(entries_match(emitted@, emitted_upto(ivs, i as int) + head));
        }
        match &interval.mode {
            IntervalMode::Cycle { steps } => {
                let m = steps.len();
                let mut k: usize = 0;
                let mut acc: u128 = 0;
                proof {
                    assert(steps@.take(0) =~= Seq::<CycleStep>::empty());
                    assert(emitted_upto(ivs, i as int) + head + step_entries_upto(
                        *interval,
                        steps@,
                        0,
                    ) =~= emitted_upto(ivs, i as int) + head);
                }
                while k < m
                    invariant
                        0 <= k <= m,
                        m == steps@.len(),
                        start_min == interval.start.spec_minutes(),
                        end_min == interval.end.spec_minutes(),
                        acc == prefix_minutes(steps@, k as int),
                        entries_match(
                            emitted@,
                            emitted_upto(ivs, i as int) + head + step_entries_upto(
                                *interval,
                                steps@,
                                k as int,
                            ),
                        ),
                    decreases m - k,
                {
                    proof {
                        lemma_prefix_bound(steps@, k as int);
                        lemma_prefix_succ(steps@, k as int);
                    }
                    acc = acc + steps[k].duration_minutes as u128;
                    let ghost chunk = ({
                        let t = interval.start.spec_minutes() + prefix_minutes(
                            steps@,
                            k as int + 1,
                        );
                        if t < interval.end.spec_minutes() {
                            seq![
                                (
                                    t,
                                    step_desc(k as int, steps@.len() as int, interval.name@),
                                    "step"@,
                                ),
                            ]
                        } else {
                            Seq::<(int, Seq<char>, Seq<char>)>::empty()
                        }
                    });
                    proof {
                        assert(step_entries_upto(*interval, steps@, k as int + 1)
                            == step_entries_upto(*interval, steps@, k as int) + chunk);
                        assert(emitted_upto(ivs, i as int) + head + step_entries_upto(
                            *interval,
                            steps@,
                            k as int + 1,
                        ) =~= (emitted_upto(ivs, i as int) + head + step_entries_upto(
                            *interval,
                            steps@,
                            k as int,
                        )) + chunk);
                    }
                    let t128 = start_min as u128 + acc;
                    if t128 < end_min as u128 {
                        let t = t128 as u32;
                        let kn = ((k + 1) % m) + 1;
                        let mut desc = String::from_str("Step ");
                        let a_text = decimal_string(kn as u64);
                        desc.append(a_text.as_str());
                        desc.append("/");
                        let b_text = decimal_string(m as u64);
                        desc.append(b_text.as_str());
                        desc.append(" in '");
                        desc.append(interval.name.as_str());
                        desc.append("'");
                        emitted.push((t, desc, String::from_str("step")));
                    }
                    proof {
                        assert(entries_match(
                            emitted@,
                            emitted_upto(ivs, i as int) + head + step_entries_upto(
                                *interval,
                                steps@,
                                k as int + 1,
                            ),
                        ));
                    }
                    k = k + 1;
                }
                proof {
                    assert(emitted_upto(ivs, i as int + 1) =~= emitted_upto(ivs, i as int)
                        + entries_for(ivs[i as int]));
                    assert(emitted_upto(ivs, i as int) + entries_for(ivs[i as int])
                        =~= emitted_upto(ivs, i as int) + head + step_entries_upto(
                        *interval,
                        steps@,
                        m as int,
                    ));
                }
            },
            IntervalMode::Static { .. } => {
                proof {
                    assert(emitted_upto(ivs, i as int + 1) =~= emitted_upto(ivs, i as int) + head);
                }
            },
        }
        i = i + 1;
    }
    let ghost all = spec_emitted(ivs);
    proof {
        assert(entries_match(emitted@, all));
    }
    let en = emitted.len();
    let mut out: Vec<(u32, String, String)> = Vec::new();
    let mut idx: usize = 0;
    proof {
        assert(all.take(0) =~= Seq::<(int, Seq<char>, Seq<char>)>::empty());
    }
    while idx < en
        invariant
            0 <= idx <= en,
            en == emitted@.len(),
            entries_match(emitted@, all),
            all == spec_emitted(ivs),
            ivs == cfg.intervals@,
            entries_match(out@, sort_by_minute(all.take(idx as int))),
            sorted_by_minute(sort_by_minute(all.take(idx as int))),
        decreases en - idx,
    {
        let x0 = emitted[idx].0;
        let x1 = emitted[idx].1.clone();
        let x2 = emitted[idx].2.clone();
        let ghost xm = all[idx as int];
        let ghost cur = sort_by_minute(all.take(idx as int));
        proof {
            assert(entry_model(emitted@[idx as int]) == xm);
        }
        let olen = out.len();
        let mut p: usize = 0;
        while p < olen && out[p].0 <= x0
            invariant
                0 <= p <= olen,
                olen == out@.len(),
                forall|q: int| 0 <= q < p ==> (#[trigger] out@[q]).0 <= x0,
            decreases olen - p,
        {
            p = p + 1;
        }
        proof {
            assert(cur.len() == olen);
            assert forall|q: int| 0 <= q < p implies (#[trigger] cur[q]).0 <= xm.0 by {
                assert(entry_model(out@[q]) == cur[q]);
            }
            if p < olen {
                assert(entry_model(out@[p as int]) == cur[p as int]);
            }
            assert(p == cur.len() || cur[p as int].0 > xm.0);
            lemma_insert_position(cur, xm, p as int);
            lemma_sorted_insert(cur, xm, p as int);
            assert(all.take(idx as int + 1).drop_last() =~= all.take(idx as int));
            assert(all.take(idx as int + 1).last() == xm);
            assert(sort_by_minute(all.take(idx as int + 1)) == cur.insert(p as int, xm));
        }
        let ghost old_out = out@;
        out.insert(p, (x0, x1, x2));
        proof {
            old_out.insert_ensures(p as int, (x0, x1, x2));
            cur.insert_ensures(p as int, xm);
            assert(entries_match(out@, cur.insert(p as int, xm)));
        }
        idx = idx + 1;
    }
    proof {
        assert(all.take(en as int) =~= all);
    }
    out
}

} // verus!
