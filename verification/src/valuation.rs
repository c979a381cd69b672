//! Terminal valuation and backward induction over the lattice.
//!
//! A payoff and an exercise rule are functions supplied by the caller.  What
//! they return is taken as it comes: the predicates of this module say which
//! call produced which value, and the functions promise that every value they
//! hand out was produced that way.

use crate::lattice::{history, Lattice};
use crate::params::StepQuantities;
use crate::scalar::{counts_as, differs_to, is_nan, is_one, multiplies_to, sums_to, Scalar};
use vstd::prelude::*;

verus! {

/// `value` is an outcome of the payoff on the history `prices` at `time`.
pub open spec fn pays<R, P: Fn(&[R], R) -> R>(
    payoff: P,
    prices: Seq<R>,
    time: R,
    value: R,
) -> bool {
    exists|h: &[R]| h@ == prices && #[trigger] call_ensures(payoff, (h, time), value)
}

/// `verdict` is an outcome of the exercise rule on the history `prices`, the
/// value of exercising now, the value of holding on, and the step.
pub open spec fn decides<R, E: Fn(&[R], R, R, usize) -> bool>(
    exercise: E,
    prices: Seq<R>,
    immediate: R,
    continuation: R,
    step: usize,
    verdict: bool,
) -> bool {
    exists|h: &[R]|
        h@ == prices && #[trigger] call_ensures(
            exercise,
            (h, immediate, continuation, step),
            verdict,
        )
}

/// `c` is `discount * (p * upper + (1 - p) * lower)`, the discounted
/// risk-neutral expectation over the two successors of a node.
pub open spec fn is_continuation<R: Scalar>(discount: R, p: R, upper: R, lower: R, c: R) -> bool {
    exists|unit: R, rest: R, gain: R, loss: R, mean: R|
        #![trigger
            differs_to(unit, p, rest),
            multiplies_to(p, upper, gain),
            multiplies_to(rest, lower, loss),
            sums_to(gain, loss, mean),
        ]
        is_one(unit) && differs_to(unit, p, rest) && multiplies_to(p, upper, gain)
            && multiplies_to(rest, lower, loss) && sums_to(gain, loss, mean) && multiplies_to(
            discount,
            mean,
            c,
        )
}

/// `time` is `step * dt`, the time at which step `step` is reached.
pub open spec fn is_node_time<R: Scalar>(step: u32, dt: R, time: R) -> bool {
    exists|n: R| #[trigger] counts_as(step, n) && multiplies_to(n, dt, time)
}

/// The value that a node takes once the exercise rule has spoken.
pub open spec fn settled<R>(exercised: bool, immediate: R, continuation: R) -> R {
    if exercised {
        immediate
    } else {
        continuation
    }
}

/// Node `(step, j)` with the history `prices` has the value `value`, given
/// the values `upper` and `lower` of its two successors; `exercised` tells
/// whether the exercise rule chose to exercise there.
pub open spec fn node_settles<R: Scalar, P: Fn(&[R], R) -> R, E: Fn(&[R], R, R, usize) -> bool>(
    payoff: P,
    exercise: Option<E>,
    discount: R,
    p: R,
    dt: R,
    prices: Seq<R>,
    step: u32,
    upper: R,
    lower: R,
    value: R,
    exercised: bool,
) -> bool {
    match exercise {
        None => !exercised && is_continuation(discount, p, upper, lower, value),
        Some(rule) => exists|continuation: R, time: R, immediate: R|
            #![trigger
                is_continuation(discount, p, upper, lower, continuation),
                pays(payoff, prices, time, immediate),
            ]
            is_continuation(discount, p, upper, lower, continuation) && is_node_time(
                step,
                dt,
                time,
            ) && pays(payoff, prices, time, immediate) && decides(
                rule,
                prices,
                immediate,
                continuation,
                step as usize,
                exercised,
            ) && value == settled(exercised, immediate, continuation),
    }
}

/// `row` holds the values of the nodes of step `step`, and `marks` where the
/// option was exercised, given the values `above` of the step after it.
pub open spec fn row_settles<R: Scalar, P: Fn(&[R], R) -> R, E: Fn(&[R], R, R, usize) -> bool>(
    payoff: P,
    exercise: Option<E>,
    discount: R,
    p: R,
    dt: R,
    grid: Seq<Seq<R>>,
    path_dependent: bool,
    step: u32,
    above: Seq<R>,
    row: Seq<R>,
    marks: Seq<bool>,
) -> bool {
    &&& above.len() == step + 2
    &&& row.len() == step + 1
    &&& marks.len() == step + 1
    &&& forall|j: int|
        0 <= j <= step ==> node_settles(
            payoff,
            exercise,
            discount,
            p,
            dt,
            history(grid, step as int, j, path_dependent),
            step,
            above[j + 1],
            above[j],
            #[trigger] row[j],
            marks[j],
        )
}

/// `row` holds the payoff at maturity of every node of the last step.
pub open spec fn is_terminal<R, P: Fn(&[R], R) -> R>(
    payoff: P,
    grid: Seq<Seq<R>>,
    path_dependent: bool,
    maturity: R,
    row: Seq<R>,
) -> bool {
    &&& row.len() == grid.len()
    &&& forall|j: int|
        0 <= j < row.len() ==> pays(
            payoff,
            history(grid, grid.len() - 1, j, path_dependent),
            maturity,
            #[trigger] row[j],
        )
}

/// The highest column at which the option was exercised, or `-1` where it
/// was exercised nowhere.
pub open spec fn last_exercised(marks: Seq<bool>) -> int
    decreases marks.len(),
{
    if marks.len() == 0 {
        -1
    } else if marks.last() {
        marks.len() - 1
    } else {
        last_exercised(marks.drop_last())
    }
}

/// `entry` is the boundary entry of a step with the node prices `prices` and
/// the exercise marks `marks`: the price of the last node at which the option
/// was exercised, or the marker of an unset entry.
pub open spec fn boundary_shows<R: Scalar>(prices: Seq<R>, marks: Seq<bool>, entry: R) -> bool {
    if last_exercised(marks) < 0 {
        is_nan(entry)
    } else {
        entry == prices[last_exercised(marks)]
    }
}

/// The payoff has at most one outcome on a given history and time.
pub open spec fn payoff_is_function<R, P: Fn(&[R], R) -> R>(payoff: P) -> bool {
    forall|g: &[R], h: &[R], time: R, x: R, y: R|
        g@ == h@ && #[trigger] call_ensures(payoff, (g, time), x) && #[trigger] call_ensures(
            payoff,
            (h, time),
            y,
        ) ==> x == y
}

/// The exercise rule has at most one outcome on given arguments.
pub open spec fn rule_is_function<R, E: Fn(&[R], R, R, usize) -> bool>(rule: E) -> bool {
    forall|g: &[R], h: &[R], immediate: R, continuation: R, step: usize, x: bool, y: bool|
        g@ == h@ && #[trigger] call_ensures(rule, (g, immediate, continuation, step), x)
            && #[trigger] call_ensures(rule, (h, immediate, continuation, step), y) ==> x == y
}

/// Computes the discounted expectation over the two successors of a node.
pub fn continuation<R: Scalar>(discount: R, p: R, upper: R, lower: R) -> (c: R)
    ensures
        is_continuation(discount, p, upper, lower, c),
{
    let unit = R::one();
    let rest = unit.minus(p);
    let gain = p.times(upper);
    let loss = rest.times(lower);
    let mean = gain.plus(loss);
    let c = discount.times(mean);
    assert(is_one(unit) && differs_to(unit, p, rest) && multiplies_to(p, upper, gain)
        && multiplies_to(rest, lower, loss) && sums_to(gain, loss, mean) && multiplies_to(
        discount,
        mean,
        c,
    ));
    c
}

/// Computes the time at which step `step` is reached.
pub fn node_time<R: Scalar>(step: u32, dt: R) -> (time: R)
    ensures
        is_node_time(step, dt, time),
{
    let n = R::from_count(step);
    let time = n.times(dt);
    assert(counts_as(step, n) && multiplies_to(n, dt, time));
    time
}

/// Picks the value of a node after the exercise rule has spoken.
pub fn settle<R: Copy>(exercised: bool, immediate: R, continuation: R) -> (value: R)
    ensures
        value == settled(exercised, immediate, continuation),
{
    if exercised {
        immediate
    } else {
        continuation
    }
}

/// The payoff can be called on every history of `len` prices.
pub open spec fn payoff_takes<R, P: Fn(&[R], R) -> R>(payoff: P, len: int) -> bool {
    forall|h: &[R], time: R| h@.len() == len ==> #[trigger] call_requires(payoff, (h, time))
}

/// The exercise rule can be called at step `step` on every history of `len`
/// prices.
pub open spec fn rule_takes<R, E: Fn(&[R], R, R, usize) -> bool>(
    exercise: E,
    len: int,
    step: usize,
) -> bool {
    forall|h: &[R], immediate: R, continuation: R|
        h@.len() == len ==> #[trigger] call_requires(
            exercise,
            (h, immediate, continuation, step),
        )
}

/// The number of prices in the history of a node of step `step`.
pub open spec fn history_len(step: int, path_dependent: bool) -> int {
    if path_dependent {
        step + 1
    } else {
        1
    }
}

/// Evaluates the payoff at maturity on every node of the last step.
pub fn terminal_values<R: Scalar, P: Fn(&[R], R) -> R>(
    lattice: &Lattice<R>,
    payoff: &P,
    path_dependent: bool,
    maturity: R,
) -> (values: Vec<R>)
    requires
        lattice.is_square(),
        payoff_takes(*payoff, history_len(lattice@.len() - 1, path_dependent)),
    ensures
        is_terminal(*payoff, lattice@, path_dependent, maturity, values@),
{
    let last = lattice.nodes.len() - 1;
    let mut values: Vec<R> = Vec::new();
    let mut j: usize = 0;
    while j <= last
        invariant
            lattice.is_square(),
            payoff_takes(*payoff, history_len(lattice@.len() - 1, path_dependent)),
            last == lattice@.len() - 1,
            last < lattice.nodes.len(),
            j <= last + 1,
            values@.len() == j,
            forall|b: int|
                0 <= b < j ==> pays(
                    *payoff,
                    history(lattice@, last as int, b, path_dependent),
                    maturity,
                    #[trigger] values@[b],
                ),
        decreases last + 1 - j,
    {
        let path = lattice.history(last, j, path_dependent);
        let value = payoff(path.as_slice(), maturity);
        values.push(value);
        j = j + 1;
    }
    values
}

/// A row of `len` unset boundary entries.
pub fn unset_row<R: Scalar>(len: usize) -> (row: Vec<R>)
    ensures
        row@.len() == len,
        forall|k: int| 0 <= k < len ==> is_nan(#[trigger] row@[k]),
{
    let unset = R::nan();
    let mut row: Vec<R> = Vec::new();
    let mut k: usize = 0;
    while k < len
        invariant
            k <= len,
            row@.len() == k,
            is_nan(unset),
            forall|a: int| 0 <= a < k ==> is_nan(#[trigger] row@[a]),
        decreases len - k,
    {
        row.push(unset);
        k = k + 1;
    }
    row
}

/// Steps the valuation array back from step `step + 1` to step `step`.
///
/// On entry the first `step + 2` cells of `values` hold the values of the
/// nodes of step `step + 1`.  On return the first `step + 1` cells hold the
/// values of the nodes of step `step`; the cells behind them are untouched.
/// Where an exercise rule is given, entry `step` of `boundary` receives the
/// price of each node at which the rule exercises, in ascending column order,
/// so that the last such node stays.  The result tells for every column
/// whether the option was exercised there.
pub fn roll_back<R: Scalar, P: Fn(&[R], R) -> R, E: Fn(&[R], R, R, usize) -> bool>(
    lattice: &Lattice<R>,
    payoff: &P,
    exercise: &Option<E>,
    quantities: &StepQuantities<R>,
    path_dependent: bool,
    step: u32,
    values: &mut Vec<R>,
    boundary: &mut Vec<R>,
) -> (marks: Ghost<Seq<bool>>)
    requires
        lattice.is_square(),
        step + 1 < lattice@.len(),
        old(values)@.len() == lattice@.len(),
        match *exercise {
            Some(rule) => {
                &&& payoff_takes(*payoff, history_len(step as int, path_dependent))
                &&& rule_takes(rule, history_len(step as int, path_dependent), step as usize)
                &&& old(boundary)@.len() == lattice@.len()
                &&& is_nan(old(boundary)@[step as int])
            },
            None => true,
        },
    ensures
        final(values)@.len() == old(values)@.len(),
        forall|k: int| step < k < old(values)@.len() ==> final(values)@[k] == old(values)@[k],
        row_settles(
            *payoff,
            *exercise,
            quantities.discount,
            quantities.probability,
            quantities.dt,
            lattice@,
            path_dependent,
            step,
            old(values)@.subrange(0, step + 2),
            final(values)@.subrange(0, step + 1),
            marks@,
        ),
        final(boundary)@.len() == old(boundary)@.len(),
        forall|k: int|
            0 <= k < old(boundary)@.len() && k != step ==> final(boundary)@[k] == old(
                boundary,
            )@[k],
        exercise.is_some() ==> boundary_shows(
            lattice@[step as int],
            marks@,
            final(boundary)@[step as int],
        ),
        exercise.is_none() ==> final(boundary)@ == old(boundary)@,
{
    let ghost before = values@;
    let ghost unmarked = boundary@;
    let ghost mut marks: Seq<bool> = Seq::empty();
    let row: usize = step as usize;
    let mut j: usize = 0;
    while j <= row
        invariant
            lattice.is_square(),
            row == step,
            row + 1 < lattice.nodes.len(),
            lattice@.len() == lattice.nodes@.len(),
            j <= row + 1,
            before.len() == lattice@.len(),
            values@.len() == before.len(),
            boundary@.len() == unmarked.len(),
            marks.len() == j,
            match *exercise {
                Some(rule) => {
                    &&& payoff_takes(*payoff, history_len(step as int, path_dependent))
                    &&& rule_takes(rule, history_len(step as int, path_dependent), step as usize)
                    &&& boundary@.len() == lattice@.len()
                    &&& boundary_shows(lattice@[step as int], marks, boundary@[step as int])
                },
                None => true,
            },
            forall|k: int| j <= k < before.len() ==> values@[k] == before[k],
            forall|k: int| 0 <= k < unmarked.len() && k != step ==> boundary@[k] == unmarked[k],
            exercise.is_none() ==> boundary@ == unmarked,
            forall|b: int|
                0 <= b < j ==> node_settles(
                    *payoff,
                    *exercise,
                    quantities.discount,
                    quantities.probability,
                    quantities.dt,
                    history(lattice@, step as int, b, path_dependent),
                    step,
                    before[b + 1],
                    before[b],
                    #[trigger] values@[b],
                    marks[b],
                ),
        decreases row + 1 - j,
    {
        let upper = values[j + 1];
        let lower = values[j];
        let held = continuation(quantities.discount, quantities.probability, upper, lower);
        let ghost earlier = marks;
        match exercise {
            Some(rule) => {
                let path = lattice.history(row, j, path_dependent);
                let time = node_time(step, quantities.dt);
                let immediate = payoff(path.as_slice(), time);
                let verdict = rule(path.as_slice(), immediate, held, row);
                let value = settle(verdict, immediate, held);
                values.set(j, value);
                if verdict {
                    assert(lattice@[step as int] == lattice.nodes@[step as int]@);
                    boundary.set(row, lattice.nodes[row][j]);
                }
                proof {
                    marks = marks.push(verdict);
                    assert(marks.drop_last() =~= earlier);
                    let prices = history(lattice@, step as int, j as int, path_dependent);
                    assert(pays(*payoff, prices, time, immediate));
                    assert(decides(rule, prices, immediate, held, step as usize, verdict));
                }
            },
            None => {
                values.set(j, held);
                proof {
                    marks = marks.push(false);
                }
            },
        }
        j = j + 1;
    }
    proof {
        let above = before.subrange(0, step + 2);
        let below = values@.subrange(0, step + 1);
        assert forall|b: int| 0 <= b <= step implies node_settles(
            *payoff,
            *exercise,
            quantities.discount,
            quantities.probability,
            quantities.dt,
            history(lattice@, step as int, b, path_dependent),
            step,
            above[b + 1],
            above[b],
            #[trigger] below[b],
            marks[b],
        ) by {
            assert(below[b] == values@[b]);
        }
    }
    Ghost(marks)
}

} // verus!
