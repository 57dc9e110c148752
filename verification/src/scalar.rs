//! The arithmetic capability that the differencing engine asks of a number
//! type.
//!
//! The engine never computes with a concrete number representation itself: it
//! perturbs coordinates, evaluates the caller's function, and combines the
//! results through the operations below.  A caller binds the engine to a
//! concrete representation (typically double precision floats) by implementing
//! this trait; every contract in the crate then speaks of that
//! implementation's own operations through the `*_s` specification functions.

use vstd::prelude::*;

use crate::func::CostFunction;

verus! {

/// A number type the differencing engine can run over.
///
/// Each executable operation comes with a specification function (`plus_s`,
/// `minus_s`, ...) that names its result.  The names default to wholly
/// abstract functions, so an implementation promises no more than that the
/// executable operation is a function of its operands: one call with the
/// same operands always yields the same value.  No algebraic laws (such as
/// commutativity) are assumed: rounding arithmetic does not obey them, and
/// every contract in this crate states results as the precise combination of
/// these operations that the engine performs.
pub trait Scalar: Sized + Copy {
    /// The value `self + other`.
    open spec fn plus_s(self, other: Self) -> Self {
        arbitrary()
    }

    /// The value `self - other`.
    open spec fn minus_s(self, other: Self) -> Self {
        arbitrary()
    }

    /// The value `self * other`.
    open spec fn times_s(self, other: Self) -> Self {
        arbitrary()
    }

    /// The value `self / other`.
    open spec fn div_s(self, other: Self) -> Self {
        arbitrary()
    }

    /// The additive identity; entries never written by a sparse path keep it.
    open spec fn zero_s() -> Self {
        arbitrary()
    }

    /// The value two, used to halve sums and to double the step.
    open spec fn two_s() -> Self {
        arbitrary()
    }

    /// The base step of the step-size policy.  For double precision floats
    /// this is four times the machine epsilon: large enough to suppress
    /// cancellation noise in `f(x + h) - f(x)`, and the divisor of the
    /// second-order (gradient-free) difference quotient.
    open spec fn base_step_s() -> Self {
        arbitrary()
    }

    /// The per-coordinate perturbation magnitude `h`: the square root of the
    /// base step, the standard balance point between truncation and rounding
    /// error for first-order differences.
    open spec fn step_s() -> Self {
        arbitrary()
    }

    fn plus(self, other: Self) -> (r: Self)
        ensures
            r == self.plus_s(other),
    ;

    fn minus(self, other: Self) -> (r: Self)
        ensures
            r == self.minus_s(other),
    ;

    fn times(self, other: Self) -> (r: Self)
        ensures
            r == self.times_s(other),
    ;

    fn div(self, other: Self) -> (r: Self)
        ensures
            r == self.div_s(other),
    ;

    fn zero() -> (r: Self)
        ensures
            r == Self::zero_s(),
    ;

    fn two() -> (r: Self)
        ensures
            r == Self::two_s(),
    ;

    fn base_step() -> (r: Self)
        ensures
            r == Self::base_step_s(),
    ;

    fn step() -> (r: Self)
        ensures
            r == Self::step_s(),
    ;
}

/// The two-element field as a scalar: parity arithmetic, the smallest
/// binding of the capability, and the one this crate verifies end to end.
/// Sums and differences are exclusive-or, products are conjunction, and the
/// step is one, so a forward quotient is simply the change in the function's
/// value when a coordinate is flipped: differencing over `Parity` computes
/// Boolean derivatives.  Two is zero here, which makes every central
/// quotient divide by zero; division by zero is defined as zero.
#[derive(Clone, Copy, Debug, PartialEq, Eq, Structural)]
pub struct Parity(pub bool);

impl Scalar for Parity {
    open spec fn plus_s(self, other: Self) -> Self {
        Parity(self.0 != other.0)
    }

    open spec fn minus_s(self, other: Self) -> Self {
        Parity(self.0 != other.0)
    }

    open spec fn times_s(self, other: Self) -> Self {
        Parity(self.0 && other.0)
    }

    open spec fn div_s(self, other: Self) -> Self {
        Parity(self.0 && other.0)
    }

    open spec fn zero_s() -> Self {
        Parity(false)
    }

    open spec fn two_s() -> Self {
        Parity(false)
    }

    open spec fn base_step_s() -> Self {
        Parity(true)
    }

    open spec fn step_s() -> Self {
        Parity(true)
    }

    fn plus(self, other: Self) -> (r: Self) {
        Parity(self.0 != other.0)
    }

    fn minus(self, other: Self) -> (r: Self) {
        Parity(self.0 != other.0)
    }

    fn times(self, other: Self) -> (r: Self) {
        Parity(self.0 && other.0)
    }

    fn div(self, other: Self) -> (r: Self) {
        Parity(self.0 && other.0)
    }

    fn zero() -> (r: Self) {
        Parity(false)
    }

    fn two() -> (r: Self) {
        Parity(false)
    }

    fn base_step() -> (r: Self) {
        Parity(true)
    }

    fn step() -> (r: Self) {
        Parity(true)
    }
}

/// The sum of a sequence of parities: its one, if the sequence holds an odd
/// number of ones.
pub open spec fn parity_sum(x: Seq<Parity>) -> Parity
    decreases x.len(),
{
    if x.len() == 0 {
        Parity(false)
    } else {
        Parity(parity_sum(x.drop_last()).0 != x.last().0)
    }
}

/// The sum of all coordinates in the two-element field, as a cost function:
/// flipping any one coordinate flips the value, so every Boolean partial
/// derivative of it is one.
pub struct ParitySum;

impl CostFunction<Parity> for ParitySum {
    open spec fn cost_spec(&self, x: Seq<Parity>) -> Parity {
        parity_sum(x)
    }

    fn cost(&self, x: &Vec<Parity>) -> (y: Parity) {
        let mut acc = false;
        let mut k: usize = 0;
        while k < x.len()
            invariant
                k <= x@.len(),
                Parity(acc) == parity_sum(x@.take(k as int)),
            decreases x@.len() - k,
        {
            acc = acc != x[k].0;
            proof {
                let pre = x@.take(k as int + 1);
                assert(pre.drop_last() =~= x@.take(k as int));
                assert(pre.last() == x@[k as int]);
            }
            k += 1;
        }
        proof {
            assert(x@.take(x@.len() as int) =~= x@);
        }
        Parity(acc)
    }
}

} // verus!
