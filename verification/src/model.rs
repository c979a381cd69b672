//! The pricing model and its result.

use crate::lattice::{is_lattice, rows, triangle, Lattice};
use crate::params::{PathParameters, StepQuantities};
use crate::scalar::{is_nan, Scalar};
use crate::valuation::{
    boundary_shows, history_len, is_terminal, payoff_takes, roll_back, row_settles, rule_takes,
    terminal_values, unset_row,
};
use vstd::prelude::*;

verus! {

/// A pricing request: the parameters and what the payoff is shown.
#[derive(Debug, Clone)]
pub struct PricingModel<R> {
    params: PathParameters<R>,
    path_dependent: bool,
    store_paths: bool,
}

/// What a pricing call returns.
#[derive(Debug)]
pub struct PricingResult<R> {
    /// The value at the root of the lattice.
    pub price: R,
    /// The node prices step by step, where the model stores paths.
    pub paths: Option<Vec<Vec<R>>>,
    /// For every step the price at which the option was last exercised, where
    /// an exercise rule was given.
    pub early_exercise_boundary: Option<Vec<R>>,
}

/// Everything a pricing call computes on its way to the result.
pub struct Valuation<R> {
    /// The step size, multipliers, probability and discount factor.
    pub quantities: StepQuantities<R>,
    /// The square table of the price lattice.
    pub grid: Seq<Seq<R>>,
    /// The option value at every node: row `i` has the `i + 1` values of step `i`.
    pub values: Seq<Seq<R>>,
    /// Whether the option was exercised at a node, for every step before the last.
    pub exercised: Seq<Seq<bool>>,
}

/// The payoff and the exercise rule can be called on the nodes of step `step`.
pub open spec fn step_takes<R, P: Fn(&[R], R) -> R, E: Fn(&[R], R, R, usize) -> bool>(
    payoff: P,
    rule: E,
    path_dependent: bool,
    step: u32,
) -> bool {
    &&& payoff_takes(payoff, history_len(step as int, path_dependent))
    &&& rule_takes(rule, history_len(step as int, path_dependent), step as usize)
}

impl<R: Scalar> PricingModel<R> {
    /// The parameters the model was made with.
    pub closed spec fn parameters(self) -> PathParameters<R> {
        self.params
    }

    /// The payoff is shown the whole price history of a node.
    pub closed spec fn is_path_dependent(self) -> bool {
        self.path_dependent
    }

    /// The result carries the node prices.
    pub closed spec fn stores_paths(self) -> bool {
        self.store_paths
    }

    /// A path-dependent model stores its paths.
    pub open spec fn well_formed(self) -> bool {
        self.is_path_dependent() ==> self.stores_paths()
    }

    /// A model that shows the payoff the price of the node alone and stores
    /// no paths.
    pub fn new(params: PathParameters<R>) -> (model: Self)
        ensures
            model.parameters() == params,
            !model.is_path_dependent(),
            !model.stores_paths(),
            model.well_formed(),
    {
        PricingModel { params, path_dependent: false, store_paths: false }
    }

    /// The same model, path-dependent and storing its paths.
    pub fn with_path_dependency(self) -> (model: Self)
        ensures
            model.parameters() == self.parameters(),
            model.is_path_dependent(),
            model.stores_paths(),
            model.well_formed(),
    {
        PricingModel { params: self.params, path_dependent: true, store_paths: true }
    }

    /// The same model, storing its paths.
    pub fn with_stored_paths(self) -> (model: Self)
        ensures
            model.parameters() == self.parameters(),
            model.is_path_dependent() == self.is_path_dependent(),
            model.stores_paths(),
            model.well_formed(),
    {
        PricingModel {
            params: self.params,
            path_dependent: self.path_dependent,
            store_paths: true,
        }
    }

    /// The payoff and the exercise rule can be called on every node on which
    /// pricing evaluates them: the payoff on the nodes of the last step, and,
    /// where a rule is given, both on the nodes of every step before it.
    pub open spec fn takes<P: Fn(&[R], R) -> R, E: Fn(&[R], R, R, usize) -> bool>(
        self,
        payoff: P,
        exercise: Option<E>,
    ) -> bool {
        &&& payoff_takes(
            payoff,
            history_len(self.parameters().steps as int, self.is_path_dependent()),
        )
        &&& match exercise {
            Some(rule) => forall|step: u32|
                step < self.parameters().steps ==> #[trigger] step_takes(
                    payoff,
                    rule,
                    self.is_path_dependent(),
                    step,
                ),
            None => true,
        }
    }

    /// `v` is a valuation of this model under the payoff and the exercise
    /// rule: its quantities derive from the parameters, its grid is the price
    /// lattice, its last row of values holds the payoffs at maturity, and
    /// every row before it is settled from the row after it.
    pub open spec fn valued_by<P: Fn(&[R], R) -> R, E: Fn(&[R], R, R, usize) -> bool>(
        self,
        payoff: P,
        exercise: Option<E>,
        v: Valuation<R>,
    ) -> bool {
        let steps = self.parameters().steps;
        &&& self.parameters().derives(v.quantities)
        &&& is_lattice(
            self.parameters().spot_price,
            v.quantities.up,
            v.quantities.down,
            steps as int,
            v.grid,
        )
        &&& v.values.len() == steps + 1
        &&& v.exercised.len() == steps
        &&& is_terminal(
            payoff,
            v.grid,
            self.is_path_dependent(),
            self.parameters().time_to_maturity,
            v.values[steps as int],
        )
        &&& forall|step: u32|
            step < steps ==> #[trigger] row_settles(
                payoff,
                exercise,
                v.quantities.discount,
                v.quantities.probability,
                v.quantities.dt,
                v.grid,
                self.is_path_dependent(),
                step,
                v.values[step + 1],
                v.values[step as int],
                v.exercised[step as int],
            )
    }

    /// `result` is what the valuation `v` amounts to: the value at the root,
    /// the nodes of the lattice where paths are stored, and, where an
    /// exercise rule is given, the boundary with one entry for every step.
    pub open spec fn reports<E>(
        self,
        exercise: Option<E>,
        v: Valuation<R>,
        result: PricingResult<R>,
    ) -> bool {
        let steps = self.parameters().steps;
        &&& result.price == v.values[0][0]
        &&& match result.paths {
            Some(paths) => self.stores_paths() && rows(paths@) == triangle(v.grid),
            None => !self.stores_paths(),
        }
        &&& match result.early_exercise_boundary {
            Some(boundary) => {
                &&& exercise.is_some()
                &&& boundary@.len() == steps + 1
                &&& is_nan(boundary@[steps as int])
                &&& forall|step: int|
                    0 <= step < steps ==> boundary_shows(
                        v.grid[step],
                        v.exercised[step],
                        #[trigger] boundary@[step],
                    )
            },
            None => exercise.is_none(),
        }
    }

    /// `result` is an outcome of pricing this model with the payoff and the
    /// exercise rule: it reports a valuation of the model under them.
    pub open spec fn priced_as<P: Fn(&[R], R) -> R, E: Fn(&[R], R, R, usize) -> bool>(
        self,
        payoff: P,
        exercise: Option<E>,
        result: PricingResult<R>,
    ) -> bool {
        exists|v: Valuation<R>|
            #[trigger] self.valued_by(payoff, exercise, v) && self.reports(exercise, v, result)
    }

    /// Prices the option with the given payoff and, where one is given, the
    /// rule that decides on early exercise.
    pub fn price<P: Fn(&[R], R) -> R, E: Fn(&[R], R, R, usize) -> bool>(
        &self,
        payoff: P,
        exercise_decision: Option<E>,
    ) -> (result: PricingResult<R>)
        requires
            self.parameters().steps < u32::MAX,
            self.takes(payoff, exercise_decision),
        ensures
            self.priced_as(payoff, exercise_decision, result),
    {
        let steps = self.params.steps;
        let quantities = self.params.step_quantities();
        let lattice = Lattice::build(
            self.params.spot_price,
            quantities.up,
            quantities.down,
            steps,
        );
        let paths = if self.store_paths {
            Some(lattice.paths())
        } else {
            None
        };
        let mut boundary = if exercise_decision.is_some() {
            unset_row(steps as usize + 1)
        } else {
            Vec::new()
        };
        let mut values = terminal_values(
            &lattice,
            &payoff,
            self.path_dependent,
            self.params.time_to_maturity,
        );
        let ghost terminal = values@;
        let ghost mut table: Seq<Seq<R>> = Seq::new((steps + 1) as nat, |k: int| terminal);
        let ghost mut marks: Seq<Seq<bool>> = Seq::new(steps as nat, |k: int| Seq::empty());
        let mut step = steps;
        assert(values@.subrange(0, steps + 1) =~= terminal);
        while step > 0
            invariant
                steps == self.params.steps,
                steps < u32::MAX,
                step <= steps,
                lattice.is_square(),
                lattice@.len() == steps + 1,
                values@.len() == steps + 1,
                table.len() == steps + 1,
                marks.len() == steps,
                table[steps as int] == terminal,
                table[step as int] == values@.subrange(0, step + 1),
                match exercise_decision {
                    Some(rule) => {
                        &&& forall|k: u32|
                            k < steps ==> #[trigger] step_takes(
                                payoff,
                                rule,
                                self.path_dependent,
                                k,
                            )
                        &&& boundary@.len() == steps + 1
                        &&& is_nan(boundary@[steps as int])
                        &&& forall|k: int| 0 <= k < step ==> is_nan(#[trigger] boundary@[k])
                        &&& forall|k: int|
                            step <= k < steps ==> boundary_shows(
                                lattice@[k],
                                marks[k],
                                #[trigger] boundary@[k],
                            )
                    },
                    None => true,
                },
                forall|k: u32|
                    step <= k < steps ==> #[trigger] row_settles(
                        payoff,
                        exercise_decision,
                        quantities.discount,
                        quantities.probability,
                        quantities.dt,
                        lattice@,
                        self.path_dependent,
                        k,
                        table[k + 1],
                        table[k as int],
                        marks[k as int],
                    ),
            decreases step,
        {
            step = step - 1;
            proof {
                if exercise_decision.is_some() {
                    assert(step_takes(
                        payoff,
                        exercise_decision.unwrap(),
                        self.path_dependent,
                        step,
                    ));
                }
            }
            let row = roll_back(
                &lattice,
                &payoff,
                &exercise_decision,
                &quantities,
                self.path_dependent,
                step,
                &mut values,
                &mut boundary,
            );
            proof {
                table = table.update(step as int, values@.subrange(0, step + 1));
                marks = marks.update(step as int, row@);
            }
        }
        let price = values[0];
        let early_exercise_boundary = if exercise_decision.is_some() {
            Some(boundary)
        } else {
            None
        };
        let result = PricingResult { price, paths, early_exercise_boundary };
        proof {
            let v = Valuation { quantities, grid: lattice@, values: table, exercised: marks };
            assert(self.valued_by(payoff, exercise_decision, v));
            assert(self.reports(exercise_decision, v, result));
        }
        result
    }
}

} // verus!
