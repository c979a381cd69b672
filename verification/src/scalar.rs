//! The numeric carrier of the pricing engine.
//!
//! The engine never looks inside a number: it only combines numbers through
//! the operations of [`Scalar`].  Nothing is assumed about what an operation
//! returns, so every statement about a computed number is a statement about
//! which operation produced it from which operands.  The predicates below give
//! those statements a name.

use vstd::prelude::*;

verus! {

/// A number type the engine can compute with.
///
/// The operations carry no contract.  An implementation for IEEE double
/// precision maps each of them onto the arithmetic of the same name.
pub trait Scalar: Copy {
    /// The number that stands for a count of steps.
    fn from_count(count: u32) -> Self;

    /// The additive unit, used for unused lattice cells.
    fn zero() -> Self;

    /// The multiplicative unit.
    fn one() -> Self;

    /// The marker of an unset entry (not-a-number).
    fn nan() -> Self;

    fn plus(self, rhs: Self) -> Self;

    fn minus(self, rhs: Self) -> Self;

    fn times(self, rhs: Self) -> Self;

    fn over(self, rhs: Self) -> Self;

    fn negated(self) -> Self;

    fn exp(self) -> Self;

    fn sqrt(self) -> Self;

    /// Raises the number to an integer power.
    fn powi(self, exponent: i32) -> Self;
}

/// `x` is an outcome of converting `count`.
pub open spec fn counts_as<R: Scalar>(count: u32, x: R) -> bool {
    call_ensures(R::from_count, (count,), x)
}

/// `x` is an outcome of `zero`.
pub open spec fn is_zero<R: Scalar>(x: R) -> bool {
    call_ensures(R::zero, (), x)
}

/// `x` is an outcome of `one`.
pub open spec fn is_one<R: Scalar>(x: R) -> bool {
    call_ensures(R::one, (), x)
}

/// `x` is an outcome of `nan`.
pub open spec fn is_nan<R: Scalar>(x: R) -> bool {
    call_ensures(R::nan, (), x)
}

/// `c` is an outcome of `a.plus(b)`.
pub open spec fn sums_to<R: Scalar>(a: R, b: R, c: R) -> bool {
    call_ensures(R::plus, (a, b), c)
}

/// `c` is an outcome of `a.minus(b)`.
pub open spec fn differs_to<R: Scalar>(a: R, b: R, c: R) -> bool {
    call_ensures(R::minus, (a, b), c)
}

/// `c` is an outcome of `a.times(b)`.
pub open spec fn multiplies_to<R: Scalar>(a: R, b: R, c: R) -> bool {
    call_ensures(R::times, (a, b), c)
}

/// `c` is an outcome of `a.over(b)`.
pub open spec fn divides_to<R: Scalar>(a: R, b: R, c: R) -> bool {
    call_ensures(R::over, (a, b), c)
}

/// `c` is an outcome of `a.negated()`.
pub open spec fn negates_to<R: Scalar>(a: R, c: R) -> bool {
    call_ensures(R::negated, (a,), c)
}

/// `c` is an outcome of `a.exp()`.
pub open spec fn exp_to<R: Scalar>(a: R, c: R) -> bool {
    call_ensures(R::exp, (a,), c)
}

/// `c` is an outcome of `a.sqrt()`.
pub open spec fn sqrt_to<R: Scalar>(a: R, c: R) -> bool {
    call_ensures(R::sqrt, (a,), c)
}

/// `c` is an outcome of `a.powi(n)`.
pub open spec fn raises_to<R: Scalar>(a: R, n: i32, c: R) -> bool {
    call_ensures(R::powi, (a, n), c)
}

/// Every operation of `R` has at most one outcome on given operands.
pub open spec fn deterministic<R: Scalar>() -> bool {
    &&& forall|n: u32, x: R, y: R| counts_as(n, x) && counts_as(n, y) ==> x == y
    &&& forall|x: R, y: R| is_zero(x) && is_zero(y) ==> x == y
    &&& forall|x: R, y: R| is_one(x) && is_one(y) ==> x == y
    &&& forall|x: R, y: R| is_nan(x) && is_nan(y) ==> x == y
    &&& forall|a: R, b: R, x: R, y: R| sums_to(a, b, x) && sums_to(a, b, y) ==> x == y
    &&& forall|a: R, b: R, x: R, y: R| differs_to(a, b, x) && differs_to(a, b, y) ==> x == y
    &&& forall|a: R, b: R, x: R, y: R|
        multiplies_to(a, b, x) && multiplies_to(a, b, y) ==> x == y
    &&& forall|a: R, b: R, x: R, y: R| divides_to(a, b, x) && divides_to(a, b, y) ==> x == y
    &&& forall|a: R, x: R, y: R| negates_to(a, x) && negates_to(a, y) ==> x == y
    &&& forall|a: R, x: R, y: R| exp_to(a, x) && exp_to(a, y) ==> x == y
    &&& forall|a: R, x: R, y: R| sqrt_to(a, x) && sqrt_to(a, y) ==> x == y
    &&& forall|a: R, n: i32, x: R, y: R| raises_to(a, n, x) && raises_to(a, n, y) ==> x == y
}

} // verus!
