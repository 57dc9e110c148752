//! Finite differencing over an abstract scalar capability.
//!
//! This crate approximates derivatives — gradients, Jacobians, Hessians and
//! their vector products — of caller-supplied black-box functions, by
//! perturbing one coordinate (or one whole direction, or one caller-chosen
//! group of coordinates) at a time and combining the evaluations into
//! difference quotients.  The engine is parametric over the number type it
//! computes with: callers bind the [`scalar::Scalar`] capability to their
//! representation (typically double precision floats) and hand the engine
//! their functions through the traits in [`func`].  Every routine's contract
//! pins each entry of its result to the exact combination of scalar
//! operations and function evaluations that the algorithm performs.

use vstd::prelude::*;

pub mod diff;
pub mod func;
pub mod hessian;
pub mod jacobian;
pub mod model;
pub mod pert;
pub mod scalar;
pub mod utils;

pub use diff::{central_diff_vec_f64, forward_diff_vec_f64};
pub use func::{CostFunction, SingleOutput, VectorFunction};
pub use hessian::{
    central_hessian_vec_f64, central_hessian_vec_prod_vec_f64, forward_hessian_nograd_sparse_vec_f64,
    forward_hessian_nograd_vec_f64, forward_hessian_vec_f64, forward_hessian_vec_prod_vec_f64,
};
pub use jacobian::{
    central_jacobian_vec_f64, central_jacobian_vec_prod_vec_f64, forward_jacobian_vec_f64,
    forward_jacobian_vec_prod_vec_f64,
};
pub use pert::{
    central_jacobian_pert_vec_f64, forward_jacobian_pert_vec_f64, PerturbationVector,
    PerturbationVectors,
};
pub use scalar::{Parity, ParitySum, Scalar};
pub use utils::{mod_and_calc_multi_vec_f64, mod_and_calc_vec_f64, restore_symmetry_vec_f64};

use crate::model::{
    cen_grad, cen_jac, cen_jac_prod, fwd_grad, fwd_hess_nograd, fwd_hess_sparse, fwd_jac,
    fwd_jac_prod, is_symmetric, matrix_of, symmetrized,
};
use crate::pert::{cen_jac_pert, fwd_jac_pert};

verus! {

/// The uniform differencing interface over a numeric container: every
/// routine of the engine, callable as a method of the parameter vector.
/// Each contract is stated over the coordinates the container holds, so an
/// implementation for another container promises exactly what the bundled
/// implementation for `Vec` proves.
pub trait FiniteDiff<S: Scalar> where Self: Sized {
    /// The coordinates this container holds.
    spec fn vals(&self) -> Seq<S>;

    /// The forward-difference gradient of the cost function `f` at `self`.
    fn forward_diff<F: CostFunction<S>>(&self, f: &F) -> (g: Self)
        ensures
            g.vals() == fwd_grad(f, self.vals()),
    ;

    /// The central-difference gradient of the cost function `f` at `self`.
    fn central_diff<F: CostFunction<S>>(&self, f: &F) -> (g: Self)
        ensures
            g.vals() == cen_grad(f, self.vals()),
    ;

    /// The forward-difference Jacobian of `fs` at `self`; row `i` holds the
    /// derivative estimates of every output with respect to coordinate `i`.
    fn forward_jacobian<F: VectorFunction<S>>(&self, fs: &F) -> (jac: Vec<Vec<S>>)
        ensures
            matrix_of(jac@) == fwd_jac(fs, self.vals()),
    ;

    /// The central-difference Jacobian of `fs` at `self`.
    fn central_jacobian<F: VectorFunction<S>>(&self, fs: &F) -> (jac: Vec<Vec<S>>)
        ensures
            matrix_of(jac@) == cen_jac(fs, self.vals()),
    ;

    /// The forward-difference estimate of the Jacobian of `fs` at `self`
    /// applied to the direction `p`, from 2 evaluations.
    fn forward_jacobian_vec_prod<F: VectorFunction<S>>(&self, fs: &F, p: &Self) -> (r: Self)
        requires
            p.vals().len() == self.vals().len(),
        ensures
            r.vals() == fwd_jac_prod(fs, self.vals(), p.vals()),
    ;

    /// The central-difference estimate of the Jacobian of `fs` at `self`
    /// applied to the direction `p`, from 2 evaluations.
    fn central_jacobian_vec_prod<F: VectorFunction<S>>(&self, fs: &F, p: &Self) -> (r: Self)
        requires
            p.vals().len() == self.vals().len(),
        ensures
            r.vals() == cen_jac_prod(fs, self.vals(), p.vals()),
    ;

    /// The grouped forward-difference Jacobian of `fs` at `self`, one
    /// evaluation per group beyond the shared baseline.
    fn forward_jacobian_pert<F: VectorFunction<S>>(&self, fs: &F, pert: PerturbationVectors) -> (jac:
        Vec<Vec<S>>)
        requires
            forall|gi: int| 0 <= gi < pert@.len() ==> (#[trigger] pert@[gi]).wf(),
            forall|gi: int|
                0 <= gi < pert@.len() ==> (#[trigger] pert@[gi]).in_bounds(
                    self.vals().len(),
                    fs.out_len(),
                ),
        ensures
            matrix_of(jac@) == fwd_jac_pert(fs, self.vals(), pert@),
    ;

    /// The grouped central-difference Jacobian of `fs` at `self`, two
    /// evaluations per group.
    fn central_jacobian_pert<F: VectorFunction<S>>(&self, fs: &F, pert: PerturbationVectors) -> (jac:
        Vec<Vec<S>>)
        requires
            forall|gi: int| 0 <= gi < pert@.len() ==> (#[trigger] pert@[gi]).wf(),
            forall|gi: int|
                0 <= gi < pert@.len() ==> (#[trigger] pert@[gi]).in_bounds(
                    self.vals().len(),
                    fs.out_len(),
                ),
        ensures
            matrix_of(jac@) == cen_jac_pert(fs, self.vals(), pert@),
    ;

    /// The forward-difference Hessian of the function whose gradient `g`
    /// computes, forced into exact symmetry.
    fn forward_hessian<G: VectorFunction<S>>(&self, g: &G) -> (r: Vec<Vec<S>>)
        requires
            g.out_len() == self.vals().len(),
        ensures
            matrix_of(r@) == symmetrized(fwd_jac(g, self.vals())),
            is_symmetric(matrix_of(r@)),
    ;

    /// The central-difference Hessian of the function whose gradient `g`
    /// computes, forced into exact symmetry.
    fn central_hessian<G: VectorFunction<S>>(&self, g: &G) -> (r: Vec<Vec<S>>)
        requires
            g.out_len() == self.vals().len(),
        ensures
            matrix_of(r@) == symmetrized(cen_jac(g, self.vals())),
            is_symmetric(matrix_of(r@)),
    ;

    /// The forward-difference estimate of the product of the Hessian with
    /// the direction `p`, from 2 evaluations of the gradient `g`.
    fn forward_hessian_vec_prod<G: VectorFunction<S>>(&self, g: &G, p: &Self) -> (r: Self)
        requires
            p.vals().len() == self.vals().len(),
        ensures
            r.vals() == fwd_jac_prod(g, self.vals(), p.vals()),
    ;

    /// The central-difference estimate of the product of the Hessian with
    /// the direction `p`, from 2 evaluations of the gradient `g`.
    fn central_hessian_vec_prod<G: VectorFunction<S>>(&self, g: &G, p: &Self) -> (r: Self)
        requires
            p.vals().len() == self.vals().len(),
        ensures
            r.vals() == cen_jac_prod(g, self.vals(), p.vals()),
    ;

    /// The gradient-free forward-difference Hessian of the cost function
    /// `f` at `self`, exactly symmetric by construction.
    fn forward_hessian_nograd<F: CostFunction<S>>(&self, f: &F) -> (r: Vec<Vec<S>>)
        ensures
            matrix_of(r@) == fwd_hess_nograd(f, self.vals()),
            is_symmetric(matrix_of(r@)),
    ;

    /// The sparse gradient-free forward-difference Hessian of `f` at
    /// `self`, restricted to the listed coordinate pairs, each mirrored.
    fn forward_hessian_nograd_sparse<F: CostFunction<S>>(
        &self,
        f: &F,
        indices: Vec<(usize, usize)>,
    ) -> (r: Vec<Vec<S>>)
        requires
            forall|k: int|
                0 <= k < indices@.len() ==> (#[trigger] indices@[k]).0 < self.vals().len()
                    && indices@[k].1 < self.vals().len(),
        ensures
            matrix_of(r@) == fwd_hess_sparse(f, self.vals(), indices@),
            is_symmetric(matrix_of(r@)),
    ;
}

impl<S: Scalar> FiniteDiff<S> for Vec<S> {
    open spec fn vals(&self) -> Seq<S> {
        self@
    }

    fn forward_diff<F: CostFunction<S>>(&self, f: &F) -> (g: Self) {
        forward_diff_vec_f64(self, f)
    }

    fn central_diff<F: CostFunction<S>>(&self, f: &F) -> (g: Self) {
        central_diff_vec_f64(self, f)
    }

    fn forward_jacobian<F: VectorFunction<S>>(&self, fs: &F) -> (jac: Vec<Vec<S>>) {
        forward_jacobian_vec_f64(self, fs)
    }

    fn central_jacobian<F: VectorFunction<S>>(&self, fs: &F) -> (jac: Vec<Vec<S>>) {
        central_jacobian_vec_f64(self, fs)
    }

    fn forward_jacobian_vec_prod<F: VectorFunction<S>>(&self, fs: &F, p: &Self) -> (r: Self) {
        forward_jacobian_vec_prod_vec_f64(self, fs, p)
    }

    fn central_jacobian_vec_prod<F: VectorFunction<S>>(&self, fs: &F, p: &Self) -> (r: Self) {
        central_jacobian_vec_prod_vec_f64(self, fs, p)
    }

    fn forward_jacobian_pert<F: VectorFunction<S>>(&self, fs: &F, pert: PerturbationVectors) -> (jac:
        Vec<Vec<S>>) {
        forward_jacobian_pert_vec_f64(self, fs, pert)
    }

    fn central_jacobian_pert<F: VectorFunction<S>>(&self, fs: &F, pert: PerturbationVectors) -> (jac:
        Vec<Vec<S>>) {
        central_jacobian_pert_vec_f64(self, fs, pert)
    }

    fn forward_hessian<G: VectorFunction<S>>(&self, g: &G) -> (r: Vec<Vec<S>>) {
        forward_hessian_vec_f64(self, g)
    }

    fn central_hessian<G: VectorFunction<S>>(&self, g: &G) -> (r: Vec<Vec<S>>) {
        central_hessian_vec_f64(self, g)
    }

    fn forward_hessian_vec_prod<G: VectorFunction<S>>(&self, g: &G, p: &Self) -> (r: Self) {
        forward_hessian_vec_prod_vec_f64(self, g, p)
    }

    fn central_hessian_vec_prod<G: VectorFunction<S>>(&self, g: &G, p: &Self) -> (r: Self) {
        central_hessian_vec_prod_vec_f64(self, g, p)
    }

    fn forward_hessian_nograd<F: CostFunction<S>>(&self, f: &F) -> (r: Vec<Vec<S>>) {
        forward_hessian_nograd_vec_f64(self, f)
    }

    fn forward_hessian_nograd_sparse<F: CostFunction<S>>(
        &self,
        f: &F,
        indices: Vec<(usize, usize)>,
    ) -> (r: Vec<Vec<S>>) {
        forward_hessian_nograd_sparse_vec_f64(self, f, indices)
    }
}

} // verus!
