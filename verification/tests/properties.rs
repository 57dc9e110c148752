//! Properties of the engine beyond single expected values: grouped equals
//! dense on covered entries, exact Hessian symmetry, symmetrization
//! idempotence, the empty-vector boundary, and evaluation counts.

use std::cell::Cell;

use finitediff::{
    central_jacobian_pert_vec_f64, central_jacobian_vec_f64, forward_hessian_nograd_sparse_vec_f64,
    forward_hessian_nograd_vec_f64, forward_jacobian_pert_vec_f64, forward_jacobian_vec_f64,
    mod_and_calc_vec_f64, restore_symmetry_vec_f64, CostFunction, FiniteDiff, Parity, ParitySum,
    PerturbationVector, Scalar, SingleOutput, VectorFunction,
};

const COMP_ACC: f64 = 1e-6;

#[derive(Clone, Copy, Debug, PartialEq)]
struct F64(f64);

impl Scalar for F64 {
    fn plus(self, other: Self) -> Self {
        F64(self.0 + other.0)
    }
    fn minus(self, other: Self) -> Self {
        F64(self.0 - other.0)
    }
    fn times(self, other: Self) -> Self {
        F64(self.0 * other.0)
    }
    fn div(self, other: Self) -> Self {
        F64(self.0 / other.0)
    }
    fn zero() -> Self {
        F64(0.0)
    }
    fn two() -> Self {
        F64(2.0)
    }
    fn base_step() -> Self {
        F64(4.0 * f64::EPSILON)
    }
    fn step() -> Self {
        F64((4.0 * f64::EPSILON).sqrt())
    }
}

fn fv(xs: &[f64]) -> Vec<F64> {
    xs.iter().map(|&a| F64(a)).collect()
}

fn fm(rows: Vec<Vec<f64>>) -> Vec<Vec<F64>> {
    rows.into_iter().map(|r| r.into_iter().map(F64).collect()).collect()
}

fn raw(xs: &Vec<F64>) -> Vec<f64> {
    xs.iter().map(|v| v.0).collect()
}

struct CostFn<F>(F);

impl<F: Fn(&Vec<f64>) -> f64> CostFunction<F64> for CostFn<F> {
    fn cost(&self, x: &Vec<F64>) -> F64 {
        F64((self.0)(&raw(x)))
    }
}

struct VecFn<F> {
    f: F,
    m: usize,
}

impl<F: Fn(&Vec<f64>) -> Vec<f64>> VectorFunction<F64> for VecFn<F> {
    fn dim(&self) -> usize {
        self.m
    }
    fn eval(&self, x: &Vec<F64>) -> Vec<F64> {
        (self.f)(&raw(x)).into_iter().map(F64).collect()
    }
}

/// A cost function that counts how often it is evaluated.
struct CountCost<'a, F> {
    f: F,
    calls: &'a Cell<usize>,
}

impl<'a, F: Fn(&Vec<f64>) -> f64> CostFunction<F64> for CountCost<'a, F> {
    fn cost(&self, x: &Vec<F64>) -> F64 {
        self.calls.set(self.calls.get() + 1);
        F64((self.f)(&raw(x)))
    }
}

/// A vector function that counts how often it is evaluated.
struct CountVec<'a, F> {
    f: F,
    m: usize,
    calls: &'a Cell<usize>,
}

impl<'a, F: Fn(&Vec<f64>) -> Vec<f64>> VectorFunction<F64> for CountVec<'a, F> {
    fn dim(&self) -> usize {
        self.m
    }
    fn eval(&self, x: &Vec<F64>) -> Vec<F64> {
        self.calls.set(self.calls.get() + 1);
        (self.f)(&raw(x)).into_iter().map(F64).collect()
    }
}

fn banded(x: &Vec<f64>) -> Vec<f64> {
    let a0 = 2.0 * (x[1].powi(3) - x[0].powi(2));
    let a1 = 3.0 * (x[1].powi(3) - x[0].powi(2)) + 2.0 * (x[2].powi(3) - x[1].powi(2));
    let a2 = 3.0 * (x[2].powi(3) - x[1].powi(2)) + 2.0 * (x[3].powi(3) - x[2].powi(2));
    let a3 = 3.0 * (x[3].powi(3) - x[2].powi(2)) + 2.0 * (x[4].powi(3) - x[3].powi(2));
    let a4 = 3.0 * (x[4].powi(3) - x[3].powi(2)) + 2.0 * (x[5].powi(3) - x[4].powi(2));
    let a5 = 3.0 * (x[5].powi(3) - x[4].powi(2));
    vec![a0, a1, a2, a3, a4, a5]
}

fn quartic(x: &Vec<f64>) -> f64 {
    x[0] + x[1].powi(2) + x[2] * x[3].powi(2)
}

/// The forward-difference gradient of `quartic`, as a vector function.
struct QuarticFwdGrad;

impl VectorFunction<F64> for QuarticFwdGrad {
    fn dim(&self) -> usize {
        4
    }
    fn eval(&self, d: &Vec<F64>) -> Vec<F64> {
        d.forward_diff(&CostFn(quartic))
    }
}

/// The central-difference gradient of `quartic`, as a vector function.
struct QuarticCenGrad;

impl VectorFunction<F64> for QuarticCenGrad {
    fn dim(&self) -> usize {
        4
    }
    fn eval(&self, d: &Vec<F64>) -> Vec<F64> {
        d.central_diff(&CostFn(quartic))
    }
}

fn banded_pert() -> Vec<PerturbationVector> {
    vec![
        PerturbationVector::new()
            .add(0, vec![0, 1])
            .add(3, vec![2, 3, 4]),
        PerturbationVector::new()
            .add(1, vec![0, 1, 2])
            .add(4, vec![3, 4, 5]),
        PerturbationVector::new()
            .add(2, vec![1, 2, 3])
            .add(5, vec![4, 5]),
    ]
}

#[test]
fn sparse_forward_jacobian_equals_dense() {
    let p = fv(&[1.0f64, 1.0, 1.0, 1.0, 1.0, 1.0]);
    let dense = forward_jacobian_vec_f64(&p, &VecFn { f: banded, m: 6 });
    let grouped = forward_jacobian_pert_vec_f64(&p, &VecFn { f: banded, m: 6 }, banded_pert());
    for i in 0..6 {
        for j in 0..6 {
            assert!((dense[i][j].0 - grouped[i][j].0).abs() < COMP_ACC);
        }
    }
}

#[test]
fn sparse_central_jacobian_equals_dense() {
    let p = fv(&[1.0f64, 1.0, 1.0, 1.0, 1.0, 1.0]);
    let dense = central_jacobian_vec_f64(&p, &VecFn { f: banded, m: 6 });
    let grouped = central_jacobian_pert_vec_f64(&p, &VecFn { f: banded, m: 6 }, banded_pert());
    for i in 0..6 {
        for j in 0..6 {
            assert!((dense[i][j].0 - grouped[i][j].0).abs() < COMP_ACC);
        }
    }
}

#[test]
fn hessians_are_exactly_symmetric() {
    let p = fv(&[1.0f64, 1.0, 1.0, 1.0]);
    let fwd = p.forward_hessian(&QuarticFwdGrad);
    let cen = p.central_hessian(&QuarticCenGrad);
    let nograd = forward_hessian_nograd_vec_f64(&p, &CostFn(quartic));
    let sparse =
        forward_hessian_nograd_sparse_vec_f64(&p, &CostFn(quartic), vec![(1, 1), (2, 3), (3, 3)]);
    for h in [fwd, cen, nograd, sparse] {
        for i in 0..4 {
            for j in 0..4 {
                assert_eq!(h[i][j].0, h[j][i].0);
            }
        }
    }
}

#[test]
fn symmetrization_is_idempotent() {
    let m = fm(vec![
        vec![1.0, 4.0, -2.5],
        vec![2.0, 7.0, 0.5],
        vec![3.5, 1.5, -9.0],
    ]);
    let once = restore_symmetry_vec_f64(m);
    let twice = restore_symmetry_vec_f64(once.clone());
    assert_eq!(once, twice);
}

#[test]
fn symmetrization_keeps_symmetric_matrix() {
    let m = fm(vec![
        vec![1.0, 4.0, 3.5],
        vec![4.0, 7.0, 0.5],
        vec![3.5, 0.5, -9.0],
    ]);
    let r = restore_symmetry_vec_f64(m.clone());
    assert_eq!(m, r);
}

#[test]
fn symmetrization_averages_mirrored_entries() {
    let m = fm(vec![vec![1.0, 4.0], vec![2.0, 1.0]]);
    let r = restore_symmetry_vec_f64(m);
    assert_eq!(r[0][0].0, 1.0);
    assert_eq!(r[0][1].0, 3.0);
    assert_eq!(r[1][0].0, 3.0);
    assert_eq!(r[1][1].0, 1.0);
}

#[test]
fn empty_vector_forward_diff_is_empty_after_one_baseline_eval() {
    let calls = Cell::new(0usize);
    let p: Vec<F64> = Vec::new();
    let g = p.forward_diff(&CountCost { f: |_x: &Vec<f64>| 0.0, calls: &calls });
    assert_eq!(g.len(), 0);
    assert_eq!(calls.get(), 1);
}

#[test]
fn empty_vector_central_diff_is_empty_with_no_evals() {
    let calls = Cell::new(0usize);
    let p: Vec<F64> = Vec::new();
    let g = p.central_diff(&CountCost { f: |_x: &Vec<f64>| 0.0, calls: &calls });
    assert_eq!(g.len(), 0);
    assert_eq!(calls.get(), 0);
}

#[test]
fn empty_vector_forward_jacobian_is_empty_after_one_baseline_eval() {
    let calls = Cell::new(0usize);
    let p: Vec<F64> = Vec::new();
    let jac = p.forward_jacobian(&CountVec { f: |_x: &Vec<f64>| Vec::new(), m: 0, calls: &calls });
    assert_eq!(jac.len(), 0);
    assert_eq!(calls.get(), 1);
}

#[test]
fn empty_vector_central_jacobian_is_empty_with_no_evals() {
    let calls = Cell::new(0usize);
    let p: Vec<F64> = Vec::new();
    let jac = p.central_jacobian(&CountVec { f: |_x: &Vec<f64>| Vec::new(), m: 0, calls: &calls });
    assert_eq!(jac.len(), 0);
    assert_eq!(calls.get(), 0);
}

#[test]
fn forward_diff_costs_one_eval_per_coordinate_plus_baseline() {
    let calls = Cell::new(0usize);
    let p = fv(&[1.0f64, 2.0]);
    let _g = p.forward_diff(&CountCost { f: |x: &Vec<f64>| x[0] + x[1], calls: &calls });
    assert_eq!(calls.get(), 3);
}

#[test]
fn central_diff_costs_two_evals_per_coordinate() {
    let calls = Cell::new(0usize);
    let p = fv(&[1.0f64, 2.0]);
    let _g = p.central_diff(&CountCost { f: |x: &Vec<f64>| x[0] + x[1], calls: &calls });
    assert_eq!(calls.get(), 4);
}

#[test]
fn grouped_forward_jacobian_costs_one_eval_per_group_plus_baseline() {
    let calls = Cell::new(0usize);
    let p = fv(&[1.0f64, 1.0, 1.0, 1.0, 1.0, 1.0]);
    let _jac = forward_jacobian_pert_vec_f64(
        &p,
        &CountVec { f: banded, m: 6, calls: &calls },
        banded_pert(),
    );
    assert_eq!(calls.get(), 4);
}

#[test]
fn grouped_central_jacobian_costs_two_evals_per_group() {
    let calls = Cell::new(0usize);
    let p = fv(&[1.0f64, 1.0, 1.0, 1.0, 1.0, 1.0]);
    let _jac = central_jacobian_pert_vec_f64(
        &p,
        &CountVec { f: banded, m: 6, calls: &calls },
        banded_pert(),
    );
    assert_eq!(calls.get(), 6);
}

#[test]
fn mod_and_calc_restores_the_perturbed_coordinate() {
    let mut x = fv(&[1.0f64, 2.0, 3.0]);
    let before = x.clone();
    let y = F64(0.5);
    let r = mod_and_calc_vec_f64(&mut x, &CostFn(|v: &Vec<f64>| v[0] + v[1] + v[2]), 1, y);
    assert_eq!(r.0, 1.0 + 2.5 + 3.0);
    assert_eq!(x, before);
}

#[test]
fn perturbation_vector_builder_accumulates_in_order() {
    let pv = PerturbationVector::new()
        .add(0, vec![0, 1])
        .add(3, vec![2, 3, 4]);
    assert_eq!(pv.x_idx, vec![0, 3]);
    assert_eq!(pv.r_idx, vec![vec![0, 1], vec![2, 3, 4]]);
}

/// The conjunction of the first two coordinates, over parity scalars.
struct ParityAnd;

impl CostFunction<Parity> for ParityAnd {
    fn cost(&self, x: &Vec<Parity>) -> Parity {
        Parity(x[0].0 && x[1].0)
    }
}

#[test]
fn boolean_derivative_over_the_two_element_field() {
    let x = vec![Parity(true), Parity(true)];
    let g = x.forward_diff(&ParityAnd);
    assert_eq!(g, vec![Parity(true), Parity(true)]);

    let x = vec![Parity(true), Parity(false)];
    let g = x.forward_diff(&ParityAnd);
    assert_eq!(g, vec![Parity(false), Parity(true)]);
}

#[test]
fn boolean_derivative_of_the_parity_sum_is_one_everywhere() {
    let x = vec![Parity(true), Parity(false), Parity(true)];
    let g = x.forward_diff(&ParitySum);
    assert_eq!(g, vec![Parity(true), Parity(true), Parity(true)]);
}

#[test]
fn single_output_jacobian_is_the_gradient_column() {
    let f = |x: &Vec<f64>| x[0] + x[1].powi(2);
    let p = fv(&[1.0f64, 2.0]);
    let jac = p.forward_jacobian(&SingleOutput { cost: CostFn(f) });
    let grad = p.forward_diff(&CostFn(f));
    for i in 0..2 {
        assert_eq!(jac[i].len(), 1);
        assert_eq!(jac[i][0].0, grad[i].0);
    }
}

#[test]
fn uncovered_entries_of_grouped_jacobian_are_zero() {
    let p = fv(&[1.0f64, 1.0, 1.0, 1.0, 1.0, 1.0]);
    let pert = vec![PerturbationVector::new().add(0, vec![0, 1])];
    let grouped = forward_jacobian_pert_vec_f64(&p, &VecFn { f: banded, m: 6 }, pert);
    for i in 0..6 {
        for j in 0..6 {
            if !(i == 0 && (j == 0 || j == 1)) {
                assert_eq!(grouped[i][j].0, 0.0);
            }
        }
    }
}
