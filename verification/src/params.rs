//! Contract parameters and the per-step quantities derived from them.

use crate::scalar::{
    counts_as, differs_to, divides_to, exp_to, is_one, multiplies_to, negates_to, sqrt_to, Scalar,
};
use vstd::prelude::*;

verus! {

/// Market and contract parameters of one pricing request.
#[derive(Debug, Clone)]
pub struct PathParameters<R> {
    pub spot_price: R,
    pub time_to_maturity: R,
    pub risk_free_rate: R,
    pub volatility: R,
    pub dividend_yield: R,
    pub steps: u32,
}

/// The four quantities that every lattice node shares, with the step size
/// they are computed from.
#[derive(Debug, Clone, Copy)]
pub struct StepQuantities<R> {
    /// Length of one step in years.
    pub dt: R,
    /// Multiplier of an up move.
    pub up: R,
    /// Multiplier of a down move.
    pub down: R,
    /// Risk-neutral probability of an up move.
    pub probability: R,
    /// Discount factor over one step.
    pub discount: R,
}

/// `dt` is the maturity divided by the number of steps.
pub open spec fn is_step_size<R: Scalar>(maturity: R, steps: u32, dt: R) -> bool {
    exists|n: R| #[trigger] counts_as(steps, n) && divides_to(maturity, n, dt)
}

/// `up` is `exp(volatility * sqrt(dt))`.
pub open spec fn is_up_factor<R: Scalar>(volatility: R, dt: R, up: R) -> bool {
    exists|root: R, spread: R|
        #![trigger sqrt_to(dt, root), multiplies_to(volatility, root, spread)]
        sqrt_to(dt, root) && multiplies_to(volatility, root, spread) && exp_to(spread, up)
}

/// `down` is `1 / up`.
pub open spec fn is_down_factor<R: Scalar>(up: R, down: R) -> bool {
    exists|unit: R| #[trigger] is_one(unit) && divides_to(unit, up, down)
}

/// `g` is `exp((rate - dividend) * dt)`, the growth of the forward over one step.
pub open spec fn is_growth<R: Scalar>(rate: R, dividend: R, dt: R, g: R) -> bool {
    exists|carry: R, scaled: R|
        #![trigger differs_to(rate, dividend, carry), multiplies_to(carry, dt, scaled)]
        differs_to(rate, dividend, carry) && multiplies_to(carry, dt, scaled) && exp_to(
            scaled,
            g,
        )
}

/// `p` is `(exp((rate - dividend) * dt) - down) / (up - down)`.
pub open spec fn is_probability<R: Scalar>(
    rate: R,
    dividend: R,
    dt: R,
    up: R,
    down: R,
    p: R,
) -> bool {
    exists|g: R, excess: R, width: R|
        #![trigger
            is_growth(rate, dividend, dt, g),
            differs_to(g, down, excess),
            differs_to(up, down, width),
        ]
        is_growth(rate, dividend, dt, g) && differs_to(g, down, excess) && differs_to(
            up,
            down,
            width,
        ) && divides_to(excess, width, p)
}

/// `discount` is `exp(-rate * dt)`.
pub open spec fn is_discount<R: Scalar>(rate: R, dt: R, discount: R) -> bool {
    exists|opposite: R, scaled: R|
        #![trigger negates_to(rate, opposite), multiplies_to(opposite, dt, scaled)]
        negates_to(rate, opposite) && multiplies_to(opposite, dt, scaled) && exp_to(
            scaled,
            discount,
        )
}

/// Divides the maturity into `steps` steps of equal length.
pub fn step_size<R: Scalar>(maturity: R, steps: u32) -> (dt: R)
    ensures
        is_step_size(maturity, steps, dt),
{
    let n = R::from_count(steps);
    let dt = maturity.over(n);
    assert(counts_as(steps, n) && divides_to(maturity, n, dt));
    dt
}

/// The multiplier of an up move over a step of length `dt`.
pub fn up_factor<R: Scalar>(volatility: R, dt: R) -> (up: R)
    ensures
        is_up_factor(volatility, dt, up),
{
    let root = dt.sqrt();
    let spread = volatility.times(root);
    let up = spread.exp();
    assert(sqrt_to(dt, root) && multiplies_to(volatility, root, spread) && exp_to(spread, up));
    up
}

/// The multiplier of a down move, the reciprocal of the up multiplier.
pub fn down_factor<R: Scalar>(up: R) -> (down: R)
    ensures
        is_down_factor(up, down),
{
    let unit = R::one();
    let down = unit.over(up);
    assert(is_one(unit) && divides_to(unit, up, down));
    down
}

/// The growth of the forward price over a step of length `dt`.
pub fn growth<R: Scalar>(rate: R, dividend: R, dt: R) -> (g: R)
    ensures
        is_growth(rate, dividend, dt, g),
{
    let carry = rate.minus(dividend);
    let scaled = carry.times(dt);
    let g = scaled.exp();
    assert(differs_to(rate, dividend, carry) && multiplies_to(carry, dt, scaled) && exp_to(
        scaled,
        g,
    ));
    g
}

/// The risk-neutral probability of an up move.
pub fn probability<R: Scalar>(rate: R, dividend: R, dt: R, up: R, down: R) -> (p: R)
    ensures
        is_probability(rate, dividend, dt, up, down, p),
{
    let g = growth(rate, dividend, dt);
    let excess = g.minus(down);
    let width = up.minus(down);
    let p = excess.over(width);
    assert(is_growth(rate, dividend, dt, g) && differs_to(g, down, excess) && differs_to(
        up,
        down,
        width,
    ) && divides_to(excess, width, p));
    p
}

/// The discount factor over a step of length `dt`.
pub fn discount_factor<R: Scalar>(rate: R, dt: R) -> (discount: R)
    ensures
        is_discount(rate, dt, discount),
{
    let opposite = rate.negated();
    let scaled = opposite.times(dt);
    let discount = scaled.exp();
    assert(negates_to(rate, opposite) && multiplies_to(opposite, dt, scaled) && exp_to(
        scaled,
        discount,
    ));
    discount
}

impl<R: Scalar> PathParameters<R> {
    /// `q` holds the step size, the up and down multipliers, the risk-neutral
    /// probability and the discount factor that belong to these parameters.
    pub open spec fn derives(self, q: StepQuantities<R>) -> bool {
        &&& is_step_size(self.time_to_maturity, self.steps, q.dt)
        &&& is_up_factor(self.volatility, q.dt, q.up)
        &&& is_down_factor(q.up, q.down)
        &&& is_probability(
            self.risk_free_rate,
            self.dividend_yield,
            q.dt,
            q.up,
            q.down,
            q.probability,
        )
        &&& is_discount(self.risk_free_rate, q.dt, q.discount)
    }

    /// Computes the quantities shared by all lattice nodes.
    pub fn step_quantities(&self) -> (q: StepQuantities<R>)
        ensures
            self.derives(q),
    {
        let dt = step_size(self.time_to_maturity, self.steps);
        let up = up_factor(self.volatility, dt);
        let down = down_factor(up);
        let probability = probability(self.risk_free_rate, self.dividend_yield, dt, up, down);
        let discount = discount_factor(self.risk_free_rate, dt);
        StepQuantities { dt, up, down, probability, discount }
    }
}

} // verus!
