//! The caller-supplied functions that the engine differentiates.
//!
//! A cost function maps a parameter vector to one scalar; a vector function
//! maps a parameter vector to a fixed number of scalars (and also stands for
//! a gradient function when a Hessian is assembled).  Both are opaque to the
//! engine: the only thing the contracts rely on is that evaluating the same
//! point twice yields the same value, which each implementor promises through
//! its specification function.

use vstd::prelude::*;

use crate::scalar::Scalar;

verus! {

/// A scalar-valued function of a parameter vector, supplied by the caller.
pub trait CostFunction<S: Scalar> {
    /// The value this function takes at `x`.  An abstract function by
    /// default: the contract below then promises only that evaluation is
    /// deterministic.
    open spec fn cost_spec(&self, x: Seq<S>) -> S {
        arbitrary()
    }

    /// Evaluates the function at `x`.
    fn cost(&self, x: &Vec<S>) -> (y: S)
        ensures
            y == self.cost_spec(x@),
    ;
}

/// A vector-valued function of a parameter vector, supplied by the caller.
/// Gradient functions handed to the Hessian paths have this shape as well.
pub trait VectorFunction<S: Scalar> {
    /// The number of scalars this function returns, the same at every point.
    open spec fn out_len(&self) -> nat {
        arbitrary()
    }

    /// The value this function takes at `x`.  An abstract function by
    /// default: the contract below then promises only that evaluation is
    /// deterministic and has a fixed width.
    open spec fn eval_spec(&self, x: Seq<S>) -> Seq<S> {
        arbitrary()
    }

    /// The number of scalars this function returns, without evaluating it.
    fn dim(&self) -> (d: usize)
        ensures
            d == self.out_len(),
    ;

    /// Evaluates the function at `x`.
    fn eval(&self, x: &Vec<S>) -> (y: Vec<S>)
        ensures
            y@ == self.eval_spec(x@),
            y@.len() == self.out_len(),
    ;
}

/// A cost function as a vector function with one output: the `m = 1` shape
/// of the output vector.  Its Jacobian is the gradient as a column, one row
/// per coordinate holding a single entry.
pub struct SingleOutput<C> {
    /// The cost function evaluated for the single output.
    pub cost: C,
}

impl<S: Scalar, C: CostFunction<S>> VectorFunction<S> for SingleOutput<C> {
    open spec fn out_len(&self) -> nat {
        1
    }

    open spec fn eval_spec(&self, x: Seq<S>) -> Seq<S> {
        seq![self.cost.cost_spec(x)]
    }

    fn dim(&self) -> (d: usize) {
        1
    }

    fn eval(&self, x: &Vec<S>) -> (y: Vec<S>) {
        let mut y: Vec<S> = Vec::new();
        y.push(self.cost.cost(x));
        proof {
            assert(y@ =~= seq![self.cost.cost_spec(x@)]);
        }
        y
    }
}

} // verus!
