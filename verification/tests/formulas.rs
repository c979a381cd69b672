use option_pricing::lattice::node_price;
use option_pricing::params::{
    discount_factor, down_factor, growth, probability, step_size, up_factor,
};
use option_pricing::valuation::{
    continuation, node_time, roll_back, settle, terminal_values, unset_row,
};
use option_pricing::{Lattice, PathParameters, PricingModel, Scalar, StepQuantities};

/// Whole numbers with exact arithmetic: division truncates, the exponential
/// is the power of two, the root is the whole root.
#[derive(Clone, Copy, Debug, PartialEq)]
struct Whole(i64);

const UNSET: i64 = i64::MIN;

impl Scalar for Whole {
    fn from_count(count: u32) -> Self {
        Whole(count as i64)
    }

    fn zero() -> Self {
        Whole(0)
    }

    fn one() -> Self {
        Whole(1)
    }

    fn nan() -> Self {
        Whole(UNSET)
    }

    fn plus(self, rhs: Self) -> Self {
        Whole(self.0 + rhs.0)
    }

    fn minus(self, rhs: Self) -> Self {
        Whole(self.0 - rhs.0)
    }

    fn times(self, rhs: Self) -> Self {
        Whole(self.0 * rhs.0)
    }

    fn over(self, rhs: Self) -> Self {
        Whole(self.0 / rhs.0)
    }

    fn negated(self) -> Self {
        Whole(-self.0)
    }

    fn exp(self) -> Self {
        if 0 <= self.0 && self.0 < 62 {
            Whole(1 << self.0)
        } else {
            Whole(0)
        }
    }

    fn sqrt(self) -> Self {
        let mut root = 0;
        while (root + 1) * (root + 1) <= self.0 {
            root += 1;
        }
        Whole(root)
    }

    fn powi(self, exponent: i32) -> Self {
        Whole(self.0.pow(exponent as u32))
    }
}

type NoRule = fn(&[Whole], Whole, Whole, usize) -> bool;

fn whole(values: &[i64]) -> Vec<Whole> {
    values.iter().map(|x| Whole(*x)).collect()
}

fn sum_plus_time(path: &[Whole], time: Whole) -> Whole {
    Whole(path.iter().map(|x| x.0).sum::<i64>() + time.0)
}

fn small_lattice() -> Lattice<Whole> {
    Lattice::build(Whole(1), Whole(2), Whole(3), 2)
}

fn quantities() -> StepQuantities<Whole> {
    StepQuantities {
        dt: Whole(5),
        up: Whole(2),
        down: Whole(3),
        probability: Whole(2),
        discount: Whole(3),
    }
}

#[test]
fn step_size_divides_maturity_by_steps() {
    assert_eq!(step_size(Whole(12), 3), Whole(4));
    assert_eq!(step_size(Whole(12), 1), Whole(12));
}

#[test]
fn up_factor_is_exp_of_volatility_times_root() {
    // 2^(3 * sqrt(4))
    assert_eq!(up_factor(Whole(3), Whole(4)), Whole(64));
}

#[test]
fn down_factor_is_reciprocal() {
    assert_eq!(down_factor(Whole(1)), Whole(1));
    assert_eq!(down_factor(Whole(-1)), Whole(-1));
    assert_eq!(down_factor(Whole(4)), Whole(0));
}

#[test]
fn growth_uses_rate_net_of_dividend() {
    // 2^((5 - 3) * 4)
    assert_eq!(growth(Whole(5), Whole(3), Whole(4)), Whole(256));
}

#[test]
fn probability_is_excess_growth_over_width() {
    // (2^((5 - 3) * 4) - 6) / (56 - 6)
    assert_eq!(
        probability(Whole(5), Whole(3), Whole(4), Whole(56), Whole(6)),
        Whole(5)
    );
}

#[test]
fn discount_factor_is_exp_of_negated_rate() {
    // 2^(-(-2) * 3)
    assert_eq!(discount_factor(Whole(-2), Whole(3)), Whole(64));
    assert_eq!(discount_factor(Whole(2), Whole(3)), Whole(0));
}

#[test]
fn step_quantities_follow_from_parameters() {
    let params = PathParameters {
        spot_price: Whole(7),
        time_to_maturity: Whole(8),
        risk_free_rate: Whole(-1),
        volatility: Whole(1),
        dividend_yield: Whole(-3),
        steps: 2,
    };
    let q = params.step_quantities();
    assert_eq!(q.dt, Whole(4));
    assert_eq!(q.up, Whole(4));
    assert_eq!(q.down, Whole(0));
    // (2^((-1 + 3) * 4) - 0) / (4 - 0)
    assert_eq!(q.probability, Whole(64));
    assert_eq!(q.discount, Whole(16));
}

#[test]
fn node_price_multiplies_up_and_down_moves() {
    assert_eq!(node_price(Whole(3), Whole(2), Whole(5), 3, 1), Whole(150));
    assert_eq!(node_price(Whole(3), Whole(2), Whole(5), 0, 0), Whole(3));
    assert_eq!(node_price(Whole(3), Whole(2), Whole(5), 4, 4), Whole(48));
}

#[test]
fn continuation_discounts_the_expectation() {
    // 2 * (3 * 5 + (1 - 3) * 7)
    assert_eq!(continuation(Whole(2), Whole(3), Whole(5), Whole(7)), Whole(2));
    // The up value weighs with the probability, the down value with the rest.
    assert_eq!(continuation(Whole(1), Whole(1), Whole(5), Whole(7)), Whole(5));
    assert_eq!(continuation(Whole(1), Whole(0), Whole(5), Whole(7)), Whole(7));
}

#[test]
fn node_time_is_step_times_step_size() {
    assert_eq!(node_time(3, Whole(4)), Whole(12));
    assert_eq!(node_time(0, Whole(4)), Whole(0));
}

#[test]
fn settle_picks_by_verdict() {
    assert_eq!(settle(true, Whole(1), Whole(2)), Whole(1));
    assert_eq!(settle(false, Whole(1), Whole(2)), Whole(2));
}

#[test]
fn unset_row_is_all_unset() {
    assert_eq!(unset_row::<Whole>(3), whole(&[UNSET, UNSET, UNSET]));
    assert_eq!(unset_row::<Whole>(0), whole(&[]));
}

#[test]
fn lattice_is_square_with_unused_cells_zero() {
    let lattice = small_lattice();
    assert_eq!(
        lattice.nodes,
        vec![whole(&[1, 0, 0]), whole(&[3, 2, 0]), whole(&[9, 6, 4])]
    );
    let root_only = Lattice::build(Whole(5), Whole(2), Whole(3), 0);
    assert_eq!(root_only.nodes, vec![whole(&[5])]);
}

#[test]
fn paths_keep_the_nodes_of_each_step() {
    assert_eq!(
        small_lattice().paths(),
        vec![whole(&[1]), whole(&[3, 2]), whole(&[9, 6, 4])]
    );
}

#[test]
fn history_of_a_node_alone_is_its_price() {
    let lattice = small_lattice();
    assert_eq!(lattice.history(2, 1, false), whole(&[6]));
    assert_eq!(lattice.history(0, 0, false), whole(&[1]));
}

#[test]
fn history_takes_the_nearest_node_of_every_step() {
    let lattice = small_lattice();
    assert_eq!(lattice.history(2, 0, true), whole(&[1, 3, 9]));
    assert_eq!(lattice.history(2, 1, true), whole(&[1, 2, 6]));
    assert_eq!(lattice.history(2, 2, true), whole(&[1, 2, 4]));
    assert_eq!(lattice.history(1, 0, true), whole(&[1, 3]));
    assert_eq!(lattice.history(1, 1, true), whole(&[1, 2]));
    assert_eq!(lattice.history(0, 0, true), whole(&[1]));
}

#[test]
fn history_never_reads_an_unused_cell() {
    let lattice = Lattice::build(Whole(5), Whole(2), Whole(3), 4);
    for i in 0..=4usize {
        for j in 0..=i {
            let path = lattice.history(i, j, true);
            assert_eq!(path.len(), i + 1);
            assert_eq!(path[0], Whole(5));
            assert_eq!(path[i], lattice.nodes[i][j]);
            for k in 0..=i {
                assert_eq!(path[k], lattice.nodes[k][j.min(k)]);
                assert!(path[k] != Whole(0));
            }
        }
    }
}

#[test]
fn history_works_on_rows_that_hold_their_nodes_only() {
    let triangular = Lattice { nodes: vec![whole(&[1]), whole(&[3, 2]), whole(&[9, 6, 4])] };
    assert_eq!(triangular.history(2, 2, true), whole(&[1, 2, 4]));
    assert_eq!(triangular.history(2, 1, true), whole(&[1, 2, 6]));
    assert_eq!(triangular.history(1, 7, true), whole(&[1, 2]));
}

#[test]
fn terminal_values_are_payoffs_at_maturity() {
    let lattice = small_lattice();
    assert_eq!(
        terminal_values(&lattice, &sum_plus_time, false, Whole(100)),
        whole(&[109, 106, 104])
    );
    // 1 + 3 + 9, 1 + 2 + 6 and 1 + 2 + 4, each with the maturity added.
    assert_eq!(
        terminal_values(&lattice, &sum_plus_time, true, Whole(100)),
        whole(&[113, 109, 107])
    );
}

#[test]
fn roll_back_without_rule_takes_continuation() {
    let lattice = small_lattice();
    let mut values = whole(&[10, 20, 30]);
    let mut boundary: Vec<Whole> = Vec::new();
    roll_back(
        &lattice,
        &sum_plus_time,
        &None::<NoRule>,
        &quantities(),
        false,
        1,
        &mut values,
        &mut boundary,
    );
    // 3 * (2 * 20 + (1 - 2) * 10) and 3 * (2 * 30 + (1 - 2) * 20)
    assert_eq!(values, whole(&[90, 120, 30]));
    assert!(boundary.is_empty());
    roll_back(
        &lattice,
        &sum_plus_time,
        &None::<NoRule>,
        &quantities(),
        false,
        0,
        &mut values,
        &mut boundary,
    );
    // 3 * (2 * 120 + (1 - 2) * 90)
    assert_eq!(values, whole(&[450, 120, 30]));
}

#[test]
fn roll_back_with_rule_settles_and_marks_the_boundary() {
    let lattice = small_lattice();
    let better =
        |_path: &[Whole], immediate: Whole, held: Whole, _step: usize| immediate.0 > held.0;
    let mut values = whole(&[10, 20, 30]);
    let mut boundary = unset_row::<Whole>(3);
    roll_back(
        &lattice,
        &sum_plus_time,
        &Some(better),
        &quantities(),
        true,
        1,
        &mut values,
        &mut boundary,
    );
    // The payoff sees the history of the node and the time 1 * 5: 1 + 3 + 5
    // and 1 + 2 + 5, both below the continuation values 90 and 120.
    assert_eq!(values, whole(&[90, 120, 30]));
    assert_eq!(boundary, whole(&[UNSET, UNSET, UNSET]));

    let worse = |_path: &[Whole], immediate: Whole, held: Whole, _step: usize| immediate.0 < held.0;
    let mut values = whole(&[10, 20, 30]);
    roll_back(
        &lattice,
        &sum_plus_time,
        &Some(worse),
        &quantities(),
        true,
        1,
        &mut values,
        &mut boundary,
    );
    assert_eq!(values, whole(&[9, 8, 30]));
    // Both nodes exercise; the price of the higher column stays.
    assert_eq!(boundary, whole(&[UNSET, 2, UNSET]));

    let low_only = |path: &[Whole], _i: Whole, _h: Whole, _step: usize| path[1].0 == 3;
    let mut values = whole(&[10, 20, 30]);
    let mut boundary = unset_row::<Whole>(3);
    roll_back(
        &lattice,
        &sum_plus_time,
        &Some(low_only),
        &quantities(),
        true,
        1,
        &mut values,
        &mut boundary,
    );
    assert_eq!(values, whole(&[9, 120, 30]));
    assert_eq!(boundary, whole(&[UNSET, 3, UNSET]));
}

#[test]
fn price_on_whole_numbers_is_exact() {
    let params = PathParameters {
        spot_price: Whole(7),
        time_to_maturity: Whole(8),
        risk_free_rate: Whole(-1),
        volatility: Whole(1),
        dividend_yield: Whole(-3),
        steps: 2,
    };
    // dt = 4, up = 4, down = 0, probability = 64, discount = 16.
    let model = PricingModel::new(params).with_stored_paths();
    let last = |path: &[Whole], _t: Whole| path[path.len() - 1];
    let result = model.price(last, None::<NoRule>);
    let paths = result.paths.unwrap();
    assert_eq!(paths, vec![whole(&[7]), whole(&[0, 28]), whole(&[0, 0, 112])]);
    // Step 1: 16 * (64 * 0 - 63 * 0) = 0 and 16 * (64 * 112 - 63 * 0) = 114688.
    // Root: 16 * (64 * 114688 - 63 * 0).
    assert_eq!(result.price, Whole(117440512));
    assert!(result.early_exercise_boundary.is_none());
}
