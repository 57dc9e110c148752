//! The differencing engine bound to double precision floats: gradients,
//! Jacobians (dense, directional and grouped) and Hessians, checked against
//! analytically known derivatives.

use finitediff::{
    central_hessian_vec_f64, central_hessian_vec_prod_vec_f64, central_jacobian_pert_vec_f64,
    central_jacobian_vec_f64, central_jacobian_vec_prod_vec_f64,
    forward_hessian_nograd_sparse_vec_f64, forward_hessian_nograd_vec_f64, forward_hessian_vec_f64,
    forward_hessian_vec_prod_vec_f64, forward_jacobian_pert_vec_f64, forward_jacobian_vec_f64,
    forward_jacobian_vec_prod_vec_f64, CostFunction, FiniteDiff, PerturbationVector, Scalar,
    VectorFunction,
};

const COMP_ACC: f64 = 1e-6;

#[derive(Clone, Copy, Debug, PartialEq)]
struct F64(f64);

impl Scalar for F64 {
    fn plus(self, other: Self) -> Self {
        F64(self.0 + other.0)
    }
    fn minus(self, other: Self) -> Self {
        F64(self.0 - other.0)
    }
    fn times(self, other: Self) -> Self {
        F64(self.0 * other.0)
    }
    fn div(self, other: Self) -> Self {
        F64(self.0 / other.0)
    }
    fn zero() -> Self {
        F64(0.0)
    }
    fn two() -> Self {
        F64(2.0)
    }
    fn base_step() -> Self {
        F64(4.0 * f64::EPSILON)
    }
    fn step() -> Self {
        F64((4.0 * f64::EPSILON).sqrt())
    }
}

fn fv(xs: &[f64]) -> Vec<F64> {
    xs.iter().map(|&a| F64(a)).collect()
}

fn raw(xs: &Vec<F64>) -> Vec<f64> {
    xs.iter().map(|v| v.0).collect()
}

struct CostFn<F>(F);

impl<F: Fn(&Vec<f64>) -> f64> CostFunction<F64> for CostFn<F> {
    fn cost(&self, x: &Vec<F64>) -> F64 {
        F64((self.0)(&raw(x)))
    }
}

struct VecFn<F> {
    f: F,
    m: usize,
}

impl<F: Fn(&Vec<f64>) -> Vec<f64>> VectorFunction<F64> for VecFn<F> {
    fn dim(&self) -> usize {
        self.m
    }
    fn eval(&self, x: &Vec<F64>) -> Vec<F64> {
        (self.f)(&raw(x)).into_iter().map(F64).collect()
    }
}

/// The gradient callable `|d| d.forward_diff(&f)` of the Hessian paths.
struct FwdGrad<F> {
    f: F,
    n: usize,
}

impl<F: Fn(&Vec<f64>) -> f64> VectorFunction<F64> for FwdGrad<F> {
    fn dim(&self) -> usize {
        self.n
    }
    fn eval(&self, d: &Vec<F64>) -> Vec<F64> {
        d.forward_diff(&CostFn(&self.f))
    }
}

/// The gradient callable `|d| d.central_diff(&f)` of the Hessian paths.
struct CenGrad<F> {
    f: F,
    n: usize,
}

impl<F: Fn(&Vec<f64>) -> f64> VectorFunction<F64> for CenGrad<F> {
    fn dim(&self) -> usize {
        self.n
    }
    fn eval(&self, d: &Vec<F64>) -> Vec<F64> {
        d.central_diff(&CostFn(&self.f))
    }
}

fn banded(x: &Vec<f64>) -> Vec<f64> {
    let a0 = 2.0 * (x[1].powi(3) - x[0].powi(2));
    let a1 = 3.0 * (x[1].powi(3) - x[0].powi(2)) + 2.0 * (x[2].powi(3) - x[1].powi(2));
    let a2 = 3.0 * (x[2].powi(3) - x[1].powi(2)) + 2.0 * (x[3].powi(3) - x[2].powi(2));
    let a3 = 3.0 * (x[3].powi(3) - x[2].powi(2)) + 2.0 * (x[4].powi(3) - x[3].powi(2));
    let a4 = 3.0 * (x[4].powi(3) - x[3].powi(2)) + 2.0 * (x[5].powi(3) - x[4].powi(2));
    let a5 = 3.0 * (x[5].powi(3) - x[4].powi(2));
    vec![a0, a1, a2, a3, a4, a5]
}

fn banded_res() -> Vec<Vec<f64>> {
    vec![
        vec![-4.0, -6.0, 0.0, 0.0, 0.0, 0.0],
        vec![6.0, 5.0, -6.0, 0.0, 0.0, 0.0],
        vec![0.0, 6.0, 5.0, -6.0, 0.0, 0.0],
        vec![0.0, 0.0, 6.0, 5.0, -6.0, 0.0],
        vec![0.0, 0.0, 0.0, 6.0, 5.0, -6.0],
        vec![0.0, 0.0, 0.0, 0.0, 6.0, 9.0],
    ]
}

fn quartic(x: &Vec<f64>) -> f64 {
    x[0] + x[1].powi(2) + x[2] * x[3].powi(2)
}

fn quartic_hess_res() -> Vec<Vec<f64>> {
    vec![
        vec![0.0, 0.0, 0.0, 0.0],
        vec![0.0, 2.0, 0.0, 0.0],
        vec![0.0, 0.0, 0.0, 2.0],
        vec![0.0, 0.0, 2.0, 2.0],
    ]
}

fn banded_pert() -> Vec<PerturbationVector> {
    vec![
        PerturbationVector::new()
            .add(0, vec![0, 1])
            .add(3, vec![2, 3, 4]),
        PerturbationVector::new()
            .add(1, vec![0, 1, 2])
            .add(4, vec![3, 4, 5]),
        PerturbationVector::new()
            .add(2, vec![1, 2, 3])
            .add(5, vec![4, 5]),
    ]
}

#[test]
fn test_forward_diff_vec_f64() {
    let f = |x: &Vec<f64>| x[0] + x[1].powi(2);
    let p = fv(&[1.0f64, 1.0f64]);
    let grad = p.forward_diff(&CostFn(f));
    let res = vec![1.0f64, 2.0];
    (0..2)
        .map(|i| assert!((res[i] - grad[i].0).abs() < COMP_ACC))
        .count();

    let p = fv(&[1.0f64, 2.0f64]);
    let grad = p.forward_diff(&CostFn(f));
    let res = vec![1.0f64, 4.0];
    (0..2)
        .map(|i| assert!((res[i] - grad[i].0).abs() < COMP_ACC))
        .count();
}

#[test]
fn test_central_diff_vec_f64() {
    let f = |x: &Vec<f64>| x[0] + x[1].powi(2);
    let p = fv(&[1.0f64, 1.0f64]);
    let grad = p.central_diff(&CostFn(f));
    let res = vec![1.0f64, 2.0];
    (0..2)
        .map(|i| assert!((res[i] - grad[i].0).abs() < COMP_ACC))
        .count();

    let p = fv(&[1.0f64, 2.0f64]);
    let grad = p.central_diff(&CostFn(f));
    let res = vec![1.0f64, 4.0];
    (0..2)
        .map(|i| assert!((res[i] - grad[i].0).abs() < COMP_ACC))
        .count();
}

#[test]
fn test_forward_jacobian_vec_f64() {
    let p = fv(&[1.0f64, 1.0, 1.0, 1.0, 1.0, 1.0]);
    let jacobian = forward_jacobian_vec_f64(&p, &VecFn { f: banded, m: 6 });
    let res = banded_res();
    (0..6)
        .zip(0..6)
        .map(|(i, j)| assert!((res[i][j] - jacobian[i][j].0).abs() < COMP_ACC))
        .count();
}

#[test]
fn test_forward_jacobian_vec_f64_trait() {
    let p = fv(&[1.0f64, 1.0, 1.0, 1.0, 1.0, 1.0]);
    let jacobian = p.forward_jacobian(&VecFn { f: banded, m: 6 });
    let res = banded_res();
    (0..6)
        .zip(0..6)
        .map(|(i, j)| assert!((res[i][j] - jacobian[i][j].0).abs() < COMP_ACC))
        .count();
}

#[test]
fn test_central_jacobian_vec_f64() {
    let p = fv(&[1.0f64, 1.0, 1.0, 1.0, 1.0, 1.0]);
    let jacobian = central_jacobian_vec_f64(&p, &VecFn { f: banded, m: 6 });
    let res = banded_res();
    (0..6)
        .zip(0..6)
        .map(|(i, j)| assert!((res[i][j] - jacobian[i][j].0).abs() < COMP_ACC))
        .count();
}

#[test]
fn test_central_jacobian_vec_f64_trait() {
    let p = fv(&[1.0f64, 1.0, 1.0, 1.0, 1.0, 1.0]);
    let jacobian = p.central_jacobian(&VecFn { f: banded, m: 6 });
    let res = banded_res();
    (0..6)
        .zip(0..6)
        .map(|(i, j)| assert!((res[i][j] - jacobian[i][j].0).abs() < COMP_ACC))
        .count();
}

#[test]
fn test_forward_jacobian_vec_prod_vec_f64() {
    let x = fv(&[1.0f64, 1.0, 1.0, 1.0, 1.0, 1.0]);
    let p = fv(&[1.0f64, 2.0, 3.0, 4.0, 5.0, 6.0]);
    let jacobian = forward_jacobian_vec_prod_vec_f64(&x, &VecFn { f: banded, m: 6 }, &p);
    let res = vec![8.0, 22.0, 27.0, 32.0, 37.0, 24.0];
    // the accuracy for this is pretty bad!!
    (0..6)
        .map(|i| assert!((res[i] - jacobian[i].0).abs() < 100.0 * COMP_ACC))
        .count();
}

#[test]
fn test_forward_jacobian_vec_prod_vec_f64_trait() {
    let x = fv(&[1.0f64, 1.0, 1.0, 1.0, 1.0, 1.0]);
    let p = fv(&[1.0f64, 2.0, 3.0, 4.0, 5.0, 6.0]);
    let jacobian = x.forward_jacobian_vec_prod(&VecFn { f: banded, m: 6 }, &p);
    let res = vec![8.0, 22.0, 27.0, 32.0, 37.0, 24.0];
    // the accuracy for this is pretty bad!!
    (0..6)
        .map(|i| assert!((res[i] - jacobian[i].0).abs() < 100.0 * COMP_ACC))
        .count();
}

#[test]
fn test_central_jacobian_vec_prod_vec_f64() {
    let x = fv(&[1.0f64, 1.0, 1.0, 1.0, 1.0, 1.0]);
    let p = fv(&[1.0f64, 2.0, 3.0, 4.0, 5.0, 6.0]);
    let jacobian = central_jacobian_vec_prod_vec_f64(&x, &VecFn { f: banded, m: 6 }, &p);
    let res = vec![8.0, 22.0, 27.0, 32.0, 37.0, 24.0];
    // the accuracy for this is pretty bad!!
    (0..6)
        .map(|i| assert!((res[i] - jacobian[i].0).abs() < 100.0 * COMP_ACC))
        .count();
}

#[test]
fn test_central_jacobian_vec_prod_vec_f64_trait() {
    let x = fv(&[1.0f64, 1.0, 1.0, 1.0, 1.0, 1.0]);
    let p = fv(&[1.0f64, 2.0, 3.0, 4.0, 5.0, 6.0]);
    let jacobian = x.central_jacobian_vec_prod(&VecFn { f: banded, m: 6 }, &p);
    let res = vec![8.0, 22.0, 27.0, 32.0, 37.0, 24.0];
    // the accuracy for this is pretty bad!!
    (0..6)
        .map(|i| assert!((res[i] - jacobian[i].0).abs() < 100.0 * COMP_ACC))
        .count();
}

#[test]
fn test_forward_jacobian_pert_vec_f64() {
    let p = fv(&[1.0f64, 1.0, 1.0, 1.0, 1.0, 1.0]);
    let jacobian = forward_jacobian_pert_vec_f64(&p, &VecFn { f: banded, m: 6 }, banded_pert());
    let res = banded_res();
    (0..6)
        .zip(0..6)
        .map(|(i, j)| assert!((res[i][j] - jacobian[i][j].0).abs() < COMP_ACC))
        .count();
}

#[test]
fn test_forward_jacobian_pert_vec_f64_trait() {
    let p = fv(&[1.0f64, 1.0, 1.0, 1.0, 1.0, 1.0]);
    let jacobian = p.forward_jacobian_pert(&VecFn { f: banded, m: 6 }, banded_pert());
    let res = banded_res();
    (0..6)
        .zip(0..6)
        .map(|(i, j)| assert!((res[i][j] - jacobian[i][j].0).abs() < COMP_ACC))
        .count();
}

#[test]
fn test_central_jacobian_pert_vec_f64() {
    let p = fv(&[1.0f64, 1.0, 1.0, 1.0, 1.0, 1.0]);
    let jacobian = central_jacobian_pert_vec_f64(&p, &VecFn { f: banded, m: 6 }, banded_pert());
    let res = banded_res();
    (0..6)
        .zip(0..6)
        .map(|(i, j)| assert!((res[i][j] - jacobian[i][j].0).abs() < COMP_ACC))
        .count();
}

#[test]
fn test_central_jacobian_pert_vec_f64_trait() {
    let p = fv(&[1.0f64, 1.0, 1.0, 1.0, 1.0, 1.0]);
    let jacobian = p.central_jacobian_pert(&VecFn { f: banded, m: 6 }, banded_pert());
    let res = banded_res();
    (0..6)
        .zip(0..6)
        .map(|(i, j)| assert!((res[i][j] - jacobian[i][j].0).abs() < COMP_ACC))
        .count();
}

#[test]
fn test_forward_hessian_vec_f64() {
    let p = fv(&[1.0f64, 1.0, 1.0, 1.0]);
    let hessian = forward_hessian_vec_f64(&p, &FwdGrad { f: quartic, n: 4 });
    let res = quartic_hess_res();
    (0..4)
        .zip(0..4)
        .map(|(i, j)| assert!((res[i][j] - hessian[i][j].0).abs() < COMP_ACC))
        .count();
}

#[test]
fn test_forward_hessian_vec_f64_trait() {
    let p = fv(&[1.0f64, 1.0, 1.0, 1.0]);
    let hessian = p.forward_hessian(&FwdGrad { f: quartic, n: 4 });
    let res = quartic_hess_res();
    (0..4)
        .zip(0..4)
        .map(|(i, j)| assert!((res[i][j] - hessian[i][j].0).abs() < COMP_ACC))
        .count();
}

#[test]
fn test_central_hessian_vec_f64() {
    let p = fv(&[1.0f64, 1.0, 1.0, 1.0]);
    let hessian = central_hessian_vec_f64(&p, &CenGrad { f: quartic, n: 4 });
    let res = quartic_hess_res();
    (0..4)
        .zip(0..4)
        .map(|(i, j)| assert!((res[i][j] - hessian[i][j].0).abs() < COMP_ACC))
        .count();
}

#[test]
fn test_central_hessian_vec_f64_trait() {
    let p = fv(&[1.0f64, 1.0, 1.0, 1.0]);
    let hessian = p.central_hessian(&CenGrad { f: quartic, n: 4 });
    let res = quartic_hess_res();
    (0..4)
        .zip(0..4)
        .map(|(i, j)| assert!((res[i][j] - hessian[i][j].0).abs() < COMP_ACC))
        .count();
}

#[test]
fn test_forward_hessian_vec_prod_vec_f64() {
    let x = fv(&[1.0f64, 1.0, 1.0, 1.0]);
    let p = fv(&[2.0, 3.0, 4.0, 5.0]);
    let hessian = forward_hessian_vec_prod_vec_f64(&x, &FwdGrad { f: quartic, n: 4 }, &p);
    let res = vec![0.0, 6.0, 10.0, 18.0];
    (0..4)
        .map(|i| assert!((res[i] - hessian[i].0).abs() < COMP_ACC))
        .count();
}

#[test]
fn test_forward_hessian_vec_prod_vec_f64_trait() {
    let x = fv(&[1.0f64, 1.0, 1.0, 1.0]);
    let p = fv(&[2.0, 3.0, 4.0, 5.0]);
    let hessian = x.forward_hessian_vec_prod(&FwdGrad { f: quartic, n: 4 }, &p);
    let res = vec![0.0, 6.0, 10.0, 18.0];
    (0..4)
        .map(|i| assert!((res[i] - hessian[i].0).abs() < COMP_ACC))
        .count();
}

#[test]
fn test_central_hessian_vec_prod_vec_f64() {
    let x = fv(&[1.0f64, 1.0, 1.0, 1.0]);
    let p = fv(&[2.0, 3.0, 4.0, 5.0]);
    let hessian = central_hessian_vec_prod_vec_f64(&x, &FwdGrad { f: quartic, n: 4 }, &p);
    let res = vec![0.0, 6.0, 10.0, 18.0];
    (0..4)
        .map(|i| assert!((res[i] - hessian[i].0).abs() < COMP_ACC))
        .count();
}

#[test]
fn test_central_hessian_vec_prod_vec_f64_trait() {
    let x = fv(&[1.0f64, 1.0, 1.0, 1.0]);
    let p = fv(&[2.0, 3.0, 4.0, 5.0]);
    let hessian = x.central_hessian_vec_prod(&CenGrad { f: quartic, n: 4 }, &p);
    let res = vec![0.0, 6.0, 10.0, 18.0];
    (0..4)
        .map(|i| assert!((res[i] - hessian[i].0).abs() < COMP_ACC))
        .count();
}

#[test]
fn test_forward_hessian_nograd_vec_f64() {
    let p = fv(&[1.0f64, 1.0, 1.0, 1.0]);
    let hessian = forward_hessian_nograd_vec_f64(&p, &CostFn(quartic));
    let res = quartic_hess_res();
    (0..4)
        .zip(0..4)
        .map(|(i, j)| assert!((res[i][j] - hessian[i][j].0).abs() < COMP_ACC))
        .count();
}

#[test]
fn test_forward_hessian_nograd_vec_f64_trait() {
    let p = fv(&[1.0f64, 1.0, 1.0, 1.0]);
    let hessian = p.forward_hessian_nograd(&CostFn(quartic));
    let res = quartic_hess_res();
    (0..4)
        .zip(0..4)
        .map(|(i, j)| assert!((res[i][j] - hessian[i][j].0).abs() < COMP_ACC))
        .count();
}

#[test]
fn test_forward_hessian_nograd_sparse_vec_f64() {
    let p = fv(&[1.0f64, 1.0, 1.0, 1.0]);
    let indices = vec![(1, 1), (2, 3), (3, 3)];
    let hessian = forward_hessian_nograd_sparse_vec_f64(&p, &CostFn(quartic), indices);
    let res = quartic_hess_res();
    (0..4)
        .zip(0..4)
        .map(|(i, j)| assert!((res[i][j] - hessian[i][j].0).abs() < COMP_ACC))
        .count();
}

#[test]
fn test_forward_hessian_nograd_sparse_vec_f64_trait() {
    let p = fv(&[1.0f64, 1.0, 1.0, 1.0]);
    let indices = vec![(1, 1), (2, 3), (3, 3)];
    let hessian = p.forward_hessian_nograd_sparse(&CostFn(quartic), indices);
    let res = quartic_hess_res();
    (0..4)
        .zip(0..4)
        .map(|(i, j)| assert!((res[i][j] - hessian[i][j].0).abs() < COMP_ACC))
        .count();
}
