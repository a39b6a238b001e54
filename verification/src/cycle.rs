//! Cycle arithmetic: the total duration of a pass through the steps, prefix
//! sums of step durations, and which step is active at a given offset into
//! the cycle.

use vstd::prelude::*;
use crate::config::CycleStep;

verus! {

/// The duration in minutes of one full pass through the steps.
pub open spec fn total_minutes(steps: Seq<CycleStep>) -> int
    decreases steps.len(),
{
    if steps.len() == 0 {
        0
    } else {
        steps[0].duration_minutes + total_minutes(steps.skip(1))
    }
}

/// The summed duration of the first `i` steps.
pub open spec fn prefix_minutes(steps: Seq<CycleStep>, i: int) -> int {
    total_minutes(steps.take(i))
}

/// The index of the step active at offset `pos` minutes into one pass of the
/// cycle: the first step whose prefix sum exceeds `pos`.
pub open spec fn step_index(steps: Seq<CycleStep>, pos: int) -> int
    decreases steps.len(),
{
    if steps.len() == 0 {
        0
    } else if pos < steps[0].duration_minutes {
        0
    } else {
        1 + step_index(steps.skip(1), pos - steps[0].duration_minutes)
    }
}

pub proof fn lemma_total_nonneg(steps: Seq<CycleStep>)
    ensures
        total_minutes(steps) >= 0,
    decreases steps.len(),
{
    if steps.len() > 0 {
        lemma_total_nonneg(steps.skip(1));
    }
}

pub proof fn lemma_total_bound(steps: Seq<CycleStep>)
    ensures
        total_minutes(steps) <= steps.len() * 0xffff_ffff,
    decreases steps.len(),
{
    if steps.len() > 0 {
        lemma_total_bound(steps.skip(1));
    }
}

/// Appending a step adds its duration to the total.
pub proof fn lemma_total_push(steps: Seq<CycleStep>, x: CycleStep)
    ensures
        total_minutes(steps.push(x)) == total_minutes(steps) + x.duration_minutes,
    decreases steps.len(),
{
    if steps.len() == 0 {
        assert(steps.push(x)[0] == x);
        assert(steps.push(x).skip(1) =~= Seq::<CycleStep>::empty());
        assert(total_minutes(steps.push(x))
            == steps.push(x)[0].duration_minutes + total_minutes(steps.push(x).skip(1)));
    } else {
        assert(steps.push(x)[0] == steps[0]);
        assert(steps.push(x).skip(1) =~= steps.skip(1).push(x));
        lemma_total_push(steps.skip(1), x);
        assert(total_minutes(steps.push(x))
            == steps.push(x)[0].duration_minutes + total_minutes(steps.push(x).skip(1)));
    }
}

pub proof fn lemma_prefix_nonneg(steps: Seq<CycleStep>, i: int)
    requires
        0 <= i <= steps.len(),
    ensures
        prefix_minutes(steps, i) >= 0,
{
    lemma_total_nonneg(steps.take(i));
}

pub proof fn lemma_prefix_bound(steps: Seq<CycleStep>, i: int)
    requires
        0 <= i <= steps.len(),
    ensures
        prefix_minutes(steps, i) <= i * 0xffff_ffff,
{
    lemma_total_bound(steps.take(i));
}

/// The prefix sum grows by one step's duration at a time.
pub proof fn lemma_prefix_succ(steps: Seq<CycleStep>, i: int)
    requires
        0 <= i < steps.len(),
    ensures
        prefix_minutes(steps, i + 1) == prefix_minutes(steps, i) + steps[i].duration_minutes,
{
    assert(steps.take(i + 1) =~= steps.take(i).push(steps[i]));
    lemma_total_push(steps.take(i), steps[i]);
}

/// The whole cycle splits into a prefix and the rest.
pub proof fn lemma_total_split(steps: Seq<CycleStep>, i: int)
    requires
        0 <= i <= steps.len(),
    ensures
        total_minutes(steps) == prefix_minutes(steps, i) + total_minutes(steps.skip(i)),
    decreases i,
{
    if i == 0 {
        assert(steps.take(0) =~= Seq::<CycleStep>::empty());
        assert(steps.skip(0) =~= steps);
    } else {
        lemma_total_split(steps, i - 1);
        lemma_prefix_succ(steps, i - 1);
        assert(steps.skip(i - 1).len() > 0);
        assert(steps.skip(i - 1)[0] == steps[i - 1]);
        assert(steps.skip(i - 1).skip(1) =~= steps.skip(i));
    }
}

/// A step whose prefix-sum window contains `pos` is the step that
/// `step_index` selects.
pub proof fn lemma_step_index_char(steps: Seq<CycleStep>, pos: int, k: int)
    requires
        0 <= k < steps.len(),
        prefix_minutes(steps, k) <= pos < prefix_minutes(steps, k + 1),
    ensures
        step_index(steps, pos) == k,
    decreases k,
{
    lemma_prefix_succ(steps, k);
    if k == 0 {
        assert(steps.take(0) =~= Seq::<CycleStep>::empty());
        assert(steps.take(1) =~= Seq::<CycleStep>::empty().push(steps[0]));
        lemma_total_push(Seq::<CycleStep>::empty(), steps[0]);
        assert(pos < steps[0].duration_minutes);
    } else {
        let tail = steps.skip(1);
        assert(steps.take(k)[0] == steps[0]);
        assert(steps.take(k).skip(1) =~= tail.take(k - 1));
        assert(steps.take(k + 1)[0] == steps[0]);
        assert(steps.take(k + 1).skip(1) =~= tail.take(k));
        assert(prefix_minutes(steps, k) == steps[0].duration_minutes + prefix_minutes(tail, k - 1));
        assert(prefix_minutes(steps, k + 1) == steps[0].duration_minutes + prefix_minutes(tail, k));
        lemma_prefix_nonneg(tail, k - 1);
        assert(pos >= steps[0].duration_minutes);
        lemma_step_index_char(tail, pos - steps[0].duration_minutes, k - 1);
    }
}

/// For an offset inside one pass, the selected step exists and its
/// prefix-sum window contains the offset.
pub proof fn lemma_step_index_props(steps: Seq<CycleStep>, pos: int)
    requires
        0 <= pos < total_minutes(steps),
    ensures
        0 <= step_index(steps, pos) < steps.len(),
        prefix_minutes(steps, step_index(steps, pos)) <= pos,
        pos < prefix_minutes(steps, step_index(steps, pos) + 1),
    decreases steps.len(),
{
    if pos < steps[0].duration_minutes {
        assert(steps.take(0) =~= Seq::<CycleStep>::empty());
        lemma_prefix_succ(steps, 0);
    } else {
        let tail = steps.skip(1);
        let pos2 = pos - steps[0].duration_minutes;
        lemma_step_index_props(tail, pos2);
        let k2 = step_index(tail, pos2);
        assert(steps.take(k2 + 1)[0] == steps[0]);
        assert(steps.take(k2 + 1).skip(1) =~= tail.take(k2));
        assert(steps.take(k2 + 2)[0] == steps[0]);
        assert(steps.take(k2 + 2).skip(1) =~= tail.take(k2 + 1));
        assert(prefix_minutes(steps, k2 + 1) == steps[0].duration_minutes + prefix_minutes(
            tail,
            k2,
        ));
        assert(prefix_minutes(steps, k2 + 2) == steps[0].duration_minutes + prefix_minutes(
            tail,
            k2 + 1,
        ));
    }
}

/// Computes the exact total duration of one pass through the steps.
pub fn cycle_total(steps: &Vec<CycleStep>) -> (t: u128)
    ensures
        t == total_minutes(steps@),
{
    let n = steps.len();
    let mut t: u128 = 0;
    let mut i: usize = 0;
    proof {
        assert(steps@.take(0) =~= Seq::<CycleStep>::empty());
    }
    while i < n
        invariant
            0 <= i <= n,
            n == steps@.len(),
            t == prefix_minutes(steps@, i as int),
        decreases n - i,
    {
        proof {
            lemma_prefix_bound(steps@, i as int);
            lemma_prefix_succ(steps@, i as int);
        }
        t = t + steps[i].duration_minutes as u128;
        i = i + 1;
    }
    proof {
        assert(steps@.take(n as int) =~= steps@);
    }
    t
}

/// Finds the step active at offset `pos` into the cycle, together with the
/// prefix sum at which that step ends.
pub fn locate_step(steps: &Vec<CycleStep>, pos: u32) -> (r: (usize, u128))
    requires
        pos < total_minutes(steps@),
    ensures
        r.0 < steps@.len(),
        r.0 == step_index(steps@, pos as int),
        r.1 == prefix_minutes(steps@, r.0 as int + 1),
        prefix_minutes(steps@, r.0 as int) <= pos < r.1,
{
    let n = steps.len();
    let mut i: usize = 0;
    let mut acc: u128 = 0;
    proof {
        assert(steps@.take(0) =~= Seq::<CycleStep>::empty());
    }
    while i < n
        invariant
            0 <= i <= n,
            n == steps@.len(),
            acc == prefix_minutes(steps@, i as int),
            acc <= pos,
            pos < total_minutes(steps@),
        decreases n - i,
    {
        proof {
            lemma_prefix_bound(steps@, i as int);
            lemma_prefix_succ(steps@, i as int);
        }
        let next_acc = acc + steps[i].duration_minutes as u128;
        if (pos as u128) < next_acc {
            proof {
                lemma_step_index_char(steps@, pos as int, i as int);
            }
            return (i, next_acc);
        }
        acc = next_acc;
        i = i + 1;
    }
    proof {
        assert(steps@.take(n as int) =~= steps@);
        assert(false);
    }
    (0, 0)
}

} // verus!
