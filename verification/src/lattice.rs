//! The recombining price lattice and the price histories read from it.
//!
//! Node `(i, j)` is reached after `i` steps of which `j` went up, so step `i`
//! has the nodes `(i, 0)` to `(i, i)`.  The lattice is kept as a square table:
//! row `i` has one cell for every column of the last row, and the cells right
//! of the diagonal are unused and hold zero.  Nothing reads them: a history
//! takes from an earlier step, which has fewer nodes, the node nearest to the
//! column it follows.

use crate::scalar::{is_zero, multiplies_to, raises_to, Scalar};
use vstd::prelude::*;

verus! {

/// `x` is `spot * up^j * down^(i - j)`, the price at node `(i, j)`.
pub open spec fn is_node_price<R: Scalar>(spot: R, up: R, down: R, i: int, j: int, x: R) -> bool {
    exists|ups: R, downs: R, risen: R|
        #![trigger
            raises_to(up, j as i32, ups),
            raises_to(down, (i - j) as i32, downs),
            multiplies_to(spot, ups, risen),
        ]
        raises_to(up, j as i32, ups) && raises_to(down, (i - j) as i32, downs) && multiplies_to(
            spot,
            ups,
            risen,
        ) && multiplies_to(risen, downs, x)
}

/// `grid` is the square table of the lattice with `steps` steps: the node
/// prices on and left of the diagonal, zero right of it.
pub open spec fn is_lattice<R: Scalar>(
    spot: R,
    up: R,
    down: R,
    steps: int,
    grid: Seq<Seq<R>>,
) -> bool {
    &&& grid.len() == steps + 1
    &&& forall|i: int| 0 <= i <= steps ==> (#[trigger] grid[i]).len() == steps + 1
    &&& forall|i: int, j: int|
        0 <= j <= i <= steps ==> is_node_price(spot, up, down, i, j, #[trigger] grid[i][j])
    &&& forall|i: int, j: int| 0 <= i < j <= steps ==> is_zero(#[trigger] grid[i][j])
}

/// The node of step `k` that stands for column `j`: column `j` itself where
/// step `k` has such a node, else the last node of the step, column `k`.
pub open spec fn nearest(j: int, k: int) -> int {
    if j < k {
        j
    } else {
        k
    }
}

/// The prices handed to a payoff for node `(i, j)`: the node's own price, or,
/// for a path-dependent payoff, one price of every step from the root to step
/// `i`, that of the node nearest to column `j`.
pub open spec fn history<R>(grid: Seq<Seq<R>>, i: int, j: int, path_dependent: bool) -> Seq<R> {
    if path_dependent {
        Seq::new((i + 1) as nat, |k: int| grid[k][nearest(j, k)])
    } else {
        seq![grid[i][j]]
    }
}

/// The rows of `grid` cut down to the nodes of the lattice: row `i` keeps its
/// first `i + 1` cells.
pub open spec fn triangle<R>(grid: Seq<Seq<R>>) -> Seq<Seq<R>> {
    Seq::new(grid.len(), |i: int| grid[i].subrange(0, i + 1))
}

/// The rows of a nested vector as sequences.
pub open spec fn rows<R>(table: Seq<Vec<R>>) -> Seq<Seq<R>> {
    Seq::new(table.len(), |i: int| table[i]@)
}

/// Computes the price at node `(i, j)`.
pub fn node_price<R: Scalar>(spot: R, up: R, down: R, i: u32, j: u32) -> (x: R)
    requires
        j <= i,
    ensures
        is_node_price(spot, up, down, i as int, j as int, x),
{
    let ups = up.powi(#[verifier::truncate] (j as i32));
    let risen = spot.times(ups);
    let downs = down.powi(#[verifier::truncate] ((i - j) as i32));
    let x = risen.times(downs);
    assert(raises_to(up, j as i32, ups) && raises_to(down, (i - j) as i32, downs) && multiplies_to(
        spot,
        ups,
        risen,
    ) && multiplies_to(risen, downs, x));
    x
}

/// The price lattice of one pricing request.
pub struct Lattice<R> {
    pub nodes: Vec<Vec<R>>,
}

impl<R> View for Lattice<R> {
    type V = Seq<Seq<R>>;

    open spec fn view(&self) -> Seq<Seq<R>> {
        rows(self.nodes@)
    }
}

impl<R: Scalar> Lattice<R> {
    /// Builds the lattice with `steps` steps from the spot price and the two
    /// multipliers.
    pub fn build(spot: R, up: R, down: R, steps: u32) -> (lattice: Self)
        requires
            steps < u32::MAX,
        ensures
            is_lattice(spot, up, down, steps as int, lattice@),
    {
        let zero = R::zero();
        let mut nodes: Vec<Vec<R>> = Vec::new();
        let mut i: u32 = 0;
        while i <= steps
            invariant
                steps < u32::MAX,
                i <= steps + 1,
                is_zero(zero),
                nodes@.len() == i,
                forall|a: int| 0 <= a < i ==> (#[trigger] nodes@[a])@.len() == steps + 1,
                forall|a: int, b: int|
                    0 <= b <= a < i ==> is_node_price(
                        spot,
                        up,
                        down,
                        a,
                        b,
                        #[trigger] nodes@[a]@[b],
                    ),
                forall|a: int, b: int|
                    0 <= a < i && a < b <= steps ==> is_zero(#[trigger] nodes@[a]@[b]),
            decreases steps + 1 - i,
        {
            let mut row: Vec<R> = Vec::new();
            let mut j: u32 = 0;
            while j <= steps
                invariant
                    steps < u32::MAX,
                    i <= steps,
                    j <= steps + 1,
                    is_zero(zero),
                    row@.len() == j,
                    forall|b: int|
                        0 <= b < j && b <= i ==> is_node_price(
                            spot,
                            up,
                            down,
                            i as int,
                            b,
                            #[trigger] row@[b],
                        ),
                    forall|b: int| i < b < j ==> is_zero(#[trigger] row@[b]),
                decreases steps + 1 - j,
            {
                if j <= i {
                    let x = node_price(spot, up, down, i, j);
                    row.push(x);
                } else {
                    row.push(zero);
                }
                j = j + 1;
            }
            nodes.push(row);
            i = i + 1;
        }
        let lattice = Lattice { nodes };
        proof {
            assert forall|a: int| 0 <= a <= steps implies (#[trigger] lattice@[a]).len() == steps
                + 1 by {
                assert(lattice@[a] == lattice.nodes@[a]@);
            }
            assert forall|a: int, b: int| 0 <= b <= a <= steps implies is_node_price(
                spot,
                up,
                down,
                a,
                b,
                #[trigger] lattice@[a][b],
            ) by {
                assert(lattice@[a][b] == lattice.nodes@[a]@[b]);
            }
            assert forall|a: int, b: int| 0 <= a < b <= steps implies is_zero(
                #[trigger] lattice@[a][b],
            ) by {
                assert(lattice@[a][b] == lattice.nodes@[a]@[b]);
            }
        }
        lattice
    }
}

impl<R: Copy> Lattice<R> {
    /// The table has a row, and every row has as many cells as there are rows.
    pub open spec fn is_square(self) -> bool {
        &&& self@.len() > 0
        &&& forall|i: int| 0 <= i < self@.len() ==> (#[trigger] self@[i]).len() == self@.len()
    }

    /// The table holds what the history of node `(i, j)` reads: the nodes of
    /// every step up to step `i`, or, where the node's own price is all that
    /// is read, column `j` of row `i`.
    pub open spec fn covers(self, i: int, j: int, path_dependent: bool) -> bool {
        &&& 0 <= i < self@.len()
        &&& 0 <= j
        &&& path_dependent ==> forall|k: int| 0 <= k <= i ==> (#[trigger] self@[k]).len() > k
        &&& !path_dependent ==> j < self@[i].len()
    }

    /// Collects the prices handed to a payoff for node `(i, j)`.
    pub fn history(&self, i: usize, j: usize, path_dependent: bool) -> (path: Vec<R>)
        requires
            self.covers(i as int, j as int, path_dependent),
        ensures
            path@ == history(self@, i as int, j as int, path_dependent),
    {
        let mut path: Vec<R> = Vec::new();
        if path_dependent {
            let mut k: usize = 0;
            while k <= i
                invariant
                    self.covers(i as int, j as int, path_dependent),
                    path_dependent,
                    i < self.nodes.len(),
                    k <= i + 1,
                    path@.len() == k,
                    forall|a: int|
                        0 <= a < k ==> #[trigger] path@[a] == self@[a][nearest(j as int, a)],
                decreases i + 1 - k,
            {
                assert(self@[k as int] == self.nodes@[k as int]@);
                let column = if j < k {
                    j
                } else {
                    k
                };
                path.push(self.nodes[k][column]);
                k = k + 1;
            }
        } else {
            assert(self@[i as int] == self.nodes@[i as int]@);
            path.push(self.nodes[i][j]);
        }
        assert(path@ =~= history(self@, i as int, j as int, path_dependent));
        path
    }

    /// Copies the nodes of the lattice, row `i` with its `i + 1` prices.
    pub fn paths(&self) -> (paths: Vec<Vec<R>>)
        requires
            forall|i: int| 0 <= i < self@.len() ==> (#[trigger] self@[i]).len() > i,
        ensures
            rows(paths@) == triangle(self@),
    {
        let mut paths: Vec<Vec<R>> = Vec::new();
        let mut i: usize = 0;
        while i < self.nodes.len()
            invariant
                forall|a: int| 0 <= a < self@.len() ==> (#[trigger] self@[a]).len() > a,
                i <= self.nodes@.len(),
                paths@.len() == i,
                forall|a: int|
                    0 <= a < i ==> (#[trigger] paths@[a])@ == self@[a].subrange(0, a + 1),
            decreases self.nodes@.len() - i,
        {
            assert(self@[i as int] == self.nodes@[i as int]@);
            let mut row: Vec<R> = Vec::new();
            let mut j: usize = 0;
            while j <= i
                invariant
                    i < self.nodes.len(),
                    self.nodes@[i as int]@.len() > i,
                    j <= i + 1,
                    row@.len() == j,
                    forall|b: int| 0 <= b < j ==> #[trigger] row@[b] == self.nodes@[i as int]@[b],
                decreases i + 1 - j,
            {
                row.push(self.nodes[i][j]);
                j = j + 1;
            }
            assert(row@ =~= self@[i as int].subrange(0, i + 1));
            paths.push(row);
            i = i + 1;
        }
        assert(rows(paths@) =~= triangle(self@));
        paths
    }
}

} // verus!
