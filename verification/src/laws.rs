//! What holds of every pricing call.

use crate::lattice::{history, is_lattice, is_node_price, nearest, rows, triangle};
use crate::model::{PricingModel, PricingResult, Valuation};
use crate::params::{
    is_discount, is_down_factor, is_growth, is_probability, is_step_size, is_up_factor,
    PathParameters, StepQuantities,
};
use crate::scalar::{deterministic, differs_to, divides_to, Scalar};
use crate::valuation::{
    boundary_shows, decides, history_len, is_continuation, is_node_time, is_terminal,
    last_exercised,
    node_settles, payoff_is_function, pays, row_settles, rule_is_function, settled,
};
use vstd::prelude::*;

verus! {

/// The highest exercised column is a column of the step or `-1`, the option
/// was exercised there, and at no column after it.
pub proof fn last_exercised_is_highest(marks: Seq<bool>)
    ensures
        -1 <= last_exercised(marks) < marks.len(),
        last_exercised(marks) >= 0 ==> marks[last_exercised(marks)],
        forall|j: int| last_exercised(marks) < j < marks.len() ==> !marks[j],
    decreases marks.len(),
{
    if marks.len() > 0 && !marks.last() {
        last_exercised_is_highest(marks.drop_last());
        assert forall|j: int| last_exercised(marks) < j < marks.len() implies !marks[j] by {
            if j < marks.len() - 1 {
                assert(marks.drop_last()[j] == marks[j]);
            }
        }
    }
}

/// On a lattice the history of node `(i, j)` holds node prices only: its
/// price of step `k` is the price of node `(k, min(j, k))`, the node of that
/// step nearest to column `j`.  It begins with the price at the root and ends
/// with the node's own price.  The unused cells of the table are never read.
pub proof fn history_reads_nearest_nodes<R: Scalar>(
    spot: R,
    up: R,
    down: R,
    steps: int,
    grid: Seq<Seq<R>>,
    i: int,
    j: int,
    path_dependent: bool,
)
    requires
        is_lattice(spot, up, down, steps, grid),
        0 <= j <= i <= steps,
    ensures
        history(grid, i, j, path_dependent).len() == history_len(i, path_dependent),
        history(grid, i, j, path_dependent).last() == grid[i][j],
        is_node_price(spot, up, down, i, j, history(grid, i, j, path_dependent).last()),
        path_dependent ==> history(grid, i, j, path_dependent)[0] == grid[0][0],
        path_dependent ==> forall|k: int|
            0 <= k <= i ==> 0 <= nearest(j, k) <= k && is_node_price(
                spot,
                up,
                down,
                k,
                nearest(j, k),
                #[trigger] history(grid, i, j, path_dependent)[k],
            ),
{
    assert(is_node_price(spot, up, down, i, j, grid[i][j]));
    if path_dependent {
        assert forall|k: int| 0 <= k <= i implies 0 <= nearest(j, k) <= k && is_node_price(
            spot,
            up,
            down,
            k,
            nearest(j, k),
            #[trigger] history(grid, i, j, path_dependent)[k],
        ) by {
            assert(is_node_price(spot, up, down, k, nearest(j, k), grid[k][nearest(j, k)]));
        }
    }
}

/// With deterministic numbers the step size is determined by the maturity
/// and the number of steps.
pub proof fn step_size_is_unique<R: Scalar>(maturity: R, steps: u32, a: R, b: R)
    requires
        deterministic::<R>(),
        is_step_size(maturity, steps, a),
        is_step_size(maturity, steps, b),
    ensures
        a == b,
{
}

/// With deterministic numbers the up multiplier is determined by the
/// volatility and the step size.
pub proof fn up_factor_is_unique<R: Scalar>(volatility: R, dt: R, a: R, b: R)
    requires
        deterministic::<R>(),
        is_up_factor(volatility, dt, a),
        is_up_factor(volatility, dt, b),
    ensures
        a == b,
{
}

/// With deterministic numbers the down multiplier is determined by the up
/// multiplier.
pub proof fn down_factor_is_unique<R: Scalar>(up: R, a: R, b: R)
    requires
        deterministic::<R>(),
        is_down_factor(up, a),
        is_down_factor(up, b),
    ensures
        a == b,
{
}

/// With deterministic numbers the growth over a step is determined by the
/// rate, the dividend yield and the step size.
pub proof fn growth_is_unique<R: Scalar>(rate: R, dividend: R, dt: R, a: R, b: R)
    requires
        deterministic::<R>(),
        is_growth(rate, dividend, dt, a),
        is_growth(rate, dividend, dt, b),
    ensures
        a == b,
{
}

/// With deterministic numbers the risk-neutral probability is determined by
/// the rate, the dividend yield, the step size and the two multipliers.
pub proof fn probability_is_unique<R: Scalar>(
    rate: R,
    dividend: R,
    dt: R,
    up: R,
    down: R,
    a: R,
    b: R,
)
    requires
        deterministic::<R>(),
        is_probability(rate, dividend, dt, up, down, a),
        is_probability(rate, dividend, dt, up, down, b),
    ensures
        a == b,
{
    let (g, e, w) = choose|g: R, e: R, w: R|
        is_growth(rate, dividend, dt, g) && differs_to(g, down, e)
            && differs_to(up, down, w) && divides_to(e, w, a);
    let (h, f, x) = choose|h: R, f: R, x: R|
        is_growth(rate, dividend, dt, h) && differs_to(h, down, f)
            && differs_to(up, down, x) && divides_to(f, x, b);
    growth_is_unique(rate, dividend, dt, g, h);
}

/// With deterministic numbers the discount factor is determined by the rate
/// and the step size.
pub proof fn discount_is_unique<R: Scalar>(rate: R, dt: R, a: R, b: R)
    requires
        deterministic::<R>(),
        is_discount(rate, dt, a),
        is_discount(rate, dt, b),
    ensures
        a == b,
{
}

/// With deterministic numbers the parameters determine the step quantities.
pub proof fn quantities_are_unique<R: Scalar>(
    params: PathParameters<R>,
    a: StepQuantities<R>,
    b: StepQuantities<R>,
)
    requires
        deterministic::<R>(),
        params.derives(a),
        params.derives(b),
    ensures
        a == b,
{
    step_size_is_unique(params.time_to_maturity, params.steps, a.dt, b.dt);
    up_factor_is_unique(params.volatility, a.dt, a.up, b.up);
    down_factor_is_unique(a.up, a.down, b.down);
    probability_is_unique(
        params.risk_free_rate,
        params.dividend_yield,
        a.dt,
        a.up,
        a.down,
        a.probability,
        b.probability,
    );
    discount_is_unique(params.risk_free_rate, a.dt, a.discount, b.discount);
}

/// With deterministic numbers the price at a node is determined by the spot
/// price, the multipliers and the node.
pub proof fn node_price_is_unique<R: Scalar>(spot: R, up: R, down: R, i: int, j: int, a: R, b: R)
    requires
        deterministic::<R>(),
        is_node_price(spot, up, down, i, j, a),
        is_node_price(spot, up, down, i, j, b),
    ensures
        a == b,
{
}

/// With deterministic numbers the lattice is determined by the spot price,
/// the multipliers and the number of steps.
pub proof fn lattice_is_unique<R: Scalar>(
    spot: R,
    up: R,
    down: R,
    steps: int,
    a: Seq<Seq<R>>,
    b: Seq<Seq<R>>,
)
    requires
        deterministic::<R>(),
        is_lattice(spot, up, down, steps, a),
        is_lattice(spot, up, down, steps, b),
    ensures
        a == b,
{
    assert forall|i: int| 0 <= i <= steps implies a[i] == b[i] by {
        assert forall|j: int| 0 <= j <= steps implies a[i][j] == b[i][j] by {
            if j <= i {
                node_price_is_unique(spot, up, down, i, j, a[i][j], b[i][j]);
            }
        }
        assert(a[i] =~= b[i]);
    }
    assert(a =~= b);
}

/// With deterministic numbers the continuation value is determined by the
/// discount factor, the probability and the values of the two successors.
pub proof fn continuation_is_unique<R: Scalar>(
    discount: R,
    p: R,
    upper: R,
    lower: R,
    a: R,
    b: R,
)
    requires
        deterministic::<R>(),
        is_continuation(discount, p, upper, lower, a),
        is_continuation(discount, p, upper, lower, b),
    ensures
        a == b,
{
}

/// With deterministic numbers the time of a step is determined by the step
/// and the step size.
pub proof fn node_time_is_unique<R: Scalar>(step: u32, dt: R, a: R, b: R)
    requires
        deterministic::<R>(),
        is_node_time(step, dt, a),
        is_node_time(step, dt, b),
    ensures
        a == b,
{
}

/// A payoff with at most one outcome gives one value on a history and time.
pub proof fn payoff_value_is_unique<R, P: Fn(&[R], R) -> R>(
    payoff: P,
    prices: Seq<R>,
    time: R,
    a: R,
    b: R,
)
    requires
        payoff_is_function(payoff),
        pays(payoff, prices, time, a),
        pays(payoff, prices, time, b),
    ensures
        a == b,
{
}

/// An exercise rule with at most one outcome gives one verdict on given
/// arguments.
pub proof fn verdict_is_unique<R, E: Fn(&[R], R, R, usize) -> bool>(
    rule: E,
    prices: Seq<R>,
    immediate: R,
    continuation: R,
    step: usize,
    a: bool,
    b: bool,
)
    requires
        rule_is_function(rule),
        decides(rule, prices, immediate, continuation, step, a),
        decides(rule, prices, immediate, continuation, step, b),
    ensures
        a == b,
{
}

/// The numbers, the payoff and the exercise rule each have at most one
/// outcome on given arguments.
pub open spec fn all_deterministic<
    R: Scalar,
    P: Fn(&[R], R) -> R,
    E: Fn(&[R], R, R, usize) -> bool,
>(payoff: P, exercise: Option<E>) -> bool {
    &&& deterministic::<R>()
    &&& payoff_is_function(payoff)
    &&& match exercise {
        Some(rule) => rule_is_function(rule),
        None => true,
    }
}

/// With deterministic numbers, payoff and exercise rule, the value of a node
/// and whether the option is exercised there are determined by the values of
/// its two successors.
pub proof fn node_value_is_unique<
    R: Scalar,
    P: Fn(&[R], R) -> R,
    E: Fn(&[R], R, R, usize) -> bool,
>(
    payoff: P,
    exercise: Option<E>,
    discount: R,
    p: R,
    dt: R,
    prices: Seq<R>,
    step: u32,
    upper: R,
    lower: R,
    a: R,
    exercised_a: bool,
    b: R,
    exercised_b: bool,
)
    requires
        all_deterministic(payoff, exercise),
        node_settles(payoff, exercise, discount, p, dt, prices, step, upper, lower, a, exercised_a),
        node_settles(payoff, exercise, discount, p, dt, prices, step, upper, lower, b, exercised_b),
    ensures
        a == b,
        exercised_a == exercised_b,
{
    match exercise {
        None => {
            continuation_is_unique(discount, p, upper, lower, a, b);
        },
        Some(rule) => {
            let (ca, ta, ia) = choose|c: R, t: R, i: R|
                is_continuation(discount, p, upper, lower, c) && is_node_time(step, dt, t)
                    && pays(payoff, prices, t, i) && decides(
                    rule,
                    prices,
                    i,
                    c,
                    step as usize,
                    exercised_a,
                ) && a == settled(exercised_a, i, c);
            let (cb, tb, ib) = choose|c: R, t: R, i: R|
                is_continuation(discount, p, upper, lower, c) && is_node_time(step, dt, t)
                    && pays(payoff, prices, t, i) && decides(
                    rule,
                    prices,
                    i,
                    c,
                    step as usize,
                    exercised_b,
                ) && b == settled(exercised_b, i, c);
            continuation_is_unique(discount, p, upper, lower, ca, cb);
            node_time_is_unique(step, dt, ta, tb);
            payoff_value_is_unique(payoff, prices, ta, ia, ib);
            verdict_is_unique(rule, prices, ia, ca, step as usize, exercised_a, exercised_b);
        },
    }
}

/// With deterministic numbers, payoff and exercise rule, the values of a
/// step and the nodes at which the option is exercised are determined by the
/// values of the step after it.
pub proof fn row_is_unique<R: Scalar, P: Fn(&[R], R) -> R, E: Fn(&[R], R, R, usize) -> bool>(
    payoff: P,
    exercise: Option<E>,
    discount: R,
    p: R,
    dt: R,
    grid: Seq<Seq<R>>,
    path_dependent: bool,
    step: u32,
    above: Seq<R>,
    a: Seq<R>,
    marks_a: Seq<bool>,
    b: Seq<R>,
    marks_b: Seq<bool>,
)
    requires
        all_deterministic(payoff, exercise),
        row_settles(
            payoff,
            exercise,
            discount,
            p,
            dt,
            grid,
            path_dependent,
            step,
            above,
            a,
            marks_a,
        ),
        row_settles(
            payoff,
            exercise,
            discount,
            p,
            dt,
            grid,
            path_dependent,
            step,
            above,
            b,
            marks_b,
        ),
    ensures
        a == b,
        marks_a == marks_b,
{
    assert forall|j: int| 0 <= j <= step implies a[j] == b[j] && marks_a[j] == marks_b[j] by {
        node_value_is_unique(
            payoff,
            exercise,
            discount,
            p,
            dt,
            history(grid, step as int, j, path_dependent),
            step,
            above[j + 1],
            above[j],
            a[j],
            marks_a[j],
            b[j],
            marks_b[j],
        );
    }
    assert(a =~= b);
    assert(marks_a =~= marks_b);
}

/// A deterministic payoff gives one row of values at maturity.
pub proof fn terminal_row_is_unique<R, P: Fn(&[R], R) -> R>(
    payoff: P,
    grid: Seq<Seq<R>>,
    path_dependent: bool,
    maturity: R,
    a: Seq<R>,
    b: Seq<R>,
)
    requires
        payoff_is_function(payoff),
        is_terminal(payoff, grid, path_dependent, maturity, a),
        is_terminal(payoff, grid, path_dependent, maturity, b),
    ensures
        a == b,
{
    assert forall|j: int| 0 <= j < a.len() implies a[j] == b[j] by {
        payoff_value_is_unique(
            payoff,
            history(grid, grid.len() - 1, j, path_dependent),
            maturity,
            a[j],
            b[j],
        );
    }
    assert(a =~= b);
}

/// Two valuations of a model on the same lattice and quantities agree on
/// every step from `from` on.
proof fn rows_agree_from<R: Scalar, P: Fn(&[R], R) -> R, E: Fn(&[R], R, R, usize) -> bool>(
    model: PricingModel<R>,
    payoff: P,
    exercise: Option<E>,
    a: Valuation<R>,
    b: Valuation<R>,
    from: u32,
)
    requires
        all_deterministic(payoff, exercise),
        model.valued_by(payoff, exercise, a),
        model.valued_by(payoff, exercise, b),
        a.quantities == b.quantities,
        a.grid == b.grid,
        from <= model.parameters().steps,
    ensures
        forall|k: int| from <= k <= model.parameters().steps ==> a.values[k] == b.values[k],
        forall|k: int| from <= k < model.parameters().steps ==> a.exercised[k] == b.exercised[k],
    decreases model.parameters().steps - from,
{
    let steps = model.parameters().steps;
    if from == steps {
        terminal_row_is_unique(
            payoff,
            a.grid,
            model.is_path_dependent(),
            model.parameters().time_to_maturity,
            a.values[steps as int],
            b.values[steps as int],
        );
    } else {
        let next = (from + 1) as u32;
        rows_agree_from(model, payoff, exercise, a, b, next);
        assert(a.values[from + 1] == b.values[from + 1]);
        assert(row_settles(
            payoff,
            exercise,
            a.quantities.discount,
            a.quantities.probability,
            a.quantities.dt,
            a.grid,
            model.is_path_dependent(),
            from,
            a.values[from + 1],
            a.values[from as int],
            a.exercised[from as int],
        ));
        assert(row_settles(
            payoff,
            exercise,
            b.quantities.discount,
            b.quantities.probability,
            b.quantities.dt,
            b.grid,
            model.is_path_dependent(),
            from,
            b.values[from + 1],
            b.values[from as int],
            b.exercised[from as int],
        ));
        row_is_unique(
            payoff,
            exercise,
            a.quantities.discount,
            a.quantities.probability,
            a.quantities.dt,
            a.grid,
            model.is_path_dependent(),
            from,
            a.values[from + 1],
            a.values[from as int],
            a.exercised[from as int],
            b.values[from as int],
            b.exercised[from as int],
        );
    }
}

/// With deterministic numbers, payoff and exercise rule a model has one
/// valuation.
pub proof fn valuation_is_unique<
    R: Scalar,
    P: Fn(&[R], R) -> R,
    E: Fn(&[R], R, R, usize) -> bool,
>(model: PricingModel<R>, payoff: P, exercise: Option<E>, a: Valuation<R>, b: Valuation<R>)
    requires
        all_deterministic(payoff, exercise),
        model.valued_by(payoff, exercise, a),
        model.valued_by(payoff, exercise, b),
    ensures
        a == b,
{
    let params = model.parameters();
    quantities_are_unique(params, a.quantities, b.quantities);
    lattice_is_unique(
        params.spot_price,
        a.quantities.up,
        a.quantities.down,
        params.steps as int,
        a.grid,
        b.grid,
    );
    rows_agree_from(model, payoff, exercise, a, b, 0);
    assert(a.values =~= b.values);
    assert(a.exercised =~= b.exercised);
}

/// Two pricing results hold the same price, the same stored paths and the
/// same exercise boundary.
pub open spec fn same_result<R>(a: PricingResult<R>, b: PricingResult<R>) -> bool {
    &&& a.price == b.price
    &&& match (a.paths, b.paths) {
        (Some(p), Some(q)) => rows(p@) == rows(q@),
        (None, None) => true,
        _ => false,
    }
    &&& match (a.early_exercise_boundary, b.early_exercise_boundary) {
        (Some(p), Some(q)) => p@ == q@,
        (None, None) => true,
        _ => false,
    }
}

/// Pricing keeps no state between calls: where the numbers, the payoff and
/// the exercise rule each have at most one outcome on given arguments, any
/// two results of pricing one model with them hold the same price, the same
/// paths and the same exercise boundary.
pub proof fn price_is_deterministic<
    R: Scalar,
    P: Fn(&[R], R) -> R,
    E: Fn(&[R], R, R, usize) -> bool,
>(
    model: PricingModel<R>,
    payoff: P,
    exercise: Option<E>,
    first: PricingResult<R>,
    second: PricingResult<R>,
)
    requires
        all_deterministic(payoff, exercise),
        model.priced_as(payoff, exercise, first),
        model.priced_as(payoff, exercise, second),
    ensures
        same_result(first, second),
{
    let a = choose|v: Valuation<R>|
        #[trigger] model.valued_by(payoff, exercise, v) && model.reports(exercise, v, first);
    let b = choose|v: Valuation<R>|
        #[trigger] model.valued_by(payoff, exercise, v) && model.reports(exercise, v, second);
    valuation_is_unique(model, payoff, exercise, a, b);
    let steps = model.parameters().steps;
    match (first.early_exercise_boundary, second.early_exercise_boundary) {
        (Some(p), Some(q)) => {
            assert forall|k: int| 0 <= k <= steps implies p@[k] == q@[k] by {
                if k < steps {
                    assert(boundary_shows(a.grid[k], a.exercised[k], p@[k]));
                    assert(boundary_shows(a.grid[k], a.exercised[k], q@[k]));
                }
            }
            assert(p@ =~= q@);
        },
        _ => {},
    }
}

/// `price` is the value of a model with a single step: the two nodes of the
/// last step of `grid` are valued by the payoff at maturity, at `upper` after
/// an up move and `lower` after a down move, and the root is settled from
/// these two in one backward step.
pub open spec fn is_single_step_price<
    R: Scalar,
    P: Fn(&[R], R) -> R,
    E: Fn(&[R], R, R, usize) -> bool,
>(
    model: PricingModel<R>,
    payoff: P,
    exercise: Option<E>,
    quantities: StepQuantities<R>,
    grid: Seq<Seq<R>>,
    upper: R,
    lower: R,
    exercised: bool,
    price: R,
) -> bool {
    let params = model.parameters();
    let whole = model.is_path_dependent();
    &&& params.derives(quantities)
    &&& is_lattice(params.spot_price, quantities.up, quantities.down, 1, grid)
    &&& pays(payoff, history(grid, 1, 1, whole), params.time_to_maturity, upper)
    &&& pays(payoff, history(grid, 1, 0, whole), params.time_to_maturity, lower)
    &&& node_settles(
        payoff,
        exercise,
        quantities.discount,
        quantities.probability,
        quantities.dt,
        history(grid, 0, 0, whole),
        0,
        upper,
        lower,
        price,
        exercised,
    )
}

/// A model with one step has a lattice with two nodes after the root, and
/// its price comes from the payoffs at these two nodes by a single backward
/// step.  Where paths are stored, they are the root and the row of the two
/// nodes.
pub proof fn single_step_price<R: Scalar, P: Fn(&[R], R) -> R, E: Fn(&[R], R, R, usize) -> bool>(
    model: PricingModel<R>,
    payoff: P,
    exercise: Option<E>,
    result: PricingResult<R>,
)
    requires
        model.parameters().steps == 1,
        model.priced_as(payoff, exercise, result),
    ensures
        exists|
            quantities: StepQuantities<R>,
            grid: Seq<Seq<R>>,
            upper: R,
            lower: R,
            exercised: bool,
        | #[trigger]
            is_single_step_price(
                model,
                payoff,
                exercise,
                quantities,
                grid,
                upper,
                lower,
                exercised,
                result.price,
            ),
        match result.paths {
            Some(paths) => paths@.len() == 2 && paths@[0]@.len() == 1 && paths@[1]@.len() == 2,
            None => true,
        },
{
    let v = choose|v: Valuation<R>|
        #[trigger] model.valued_by(payoff, exercise, v) && model.reports(exercise, v, result);
    let first: u32 = 0;
    assert(row_settles(
        payoff,
        exercise,
        v.quantities.discount,
        v.quantities.probability,
        v.quantities.dt,
        v.grid,
        model.is_path_dependent(),
        first,
        v.values[first + 1],
        v.values[first as int],
        v.exercised[first as int],
    ));
    let last = v.values[1];
    let root = v.values[0];
    assert(root[0] == result.price);
    assert(pays(
        payoff,
        history(v.grid, 1, 1, model.is_path_dependent()),
        model.parameters().time_to_maturity,
        last[1],
    ));
    assert(pays(
        payoff,
        history(v.grid, 1, 0, model.is_path_dependent()),
        model.parameters().time_to_maturity,
        last[0],
    ));
    assert(is_single_step_price(
        model,
        payoff,
        exercise,
        v.quantities,
        v.grid,
        last[1],
        last[0],
        v.exercised[0][0],
        result.price,
    ));
    match result.paths {
        Some(paths) => {
            let shown = rows(paths@);
            assert(shown == triangle(v.grid));
            assert(shown.len() == 2);
            assert(shown[0] == paths@[0]@);
            assert(shown[1] == paths@[1]@);
        },
        None => {},
    }
}

} // verus!
