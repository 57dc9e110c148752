//! The mathematical model that every contract in the crate is stated over:
//! perturbed evaluation points, difference quotients, and the matrices the
//! differencing routines assemble.

use vstd::prelude::*;

use crate::func::{CostFunction, VectorFunction};
use crate::scalar::Scalar;

verus! {

/// `x` with coordinate `i` moved up by `h`.
pub open spec fn bumped<S: Scalar>(x: Seq<S>, i: int, h: S) -> Seq<S> {
    x.update(i, x[i].plus_s(h))
}

/// `x` with coordinate `i` moved down by `h`.
pub open spec fn bumped_down<S: Scalar>(x: Seq<S>, i: int, h: S) -> Seq<S> {
    x.update(i, x[i].minus_s(h))
}

/// `x` moved by `h` along the whole direction `p`: coordinate `i` becomes
/// `x[i] + h * p[i]`.
pub open spec fn moved_along<S: Scalar>(x: Seq<S>, p: Seq<S>, h: S) -> Seq<S> {
    Seq::new(x.len(), |i: int| x[i].plus_s(h.times_s(p[i])))
}

/// `x` moved by `h` against the whole direction `p`: coordinate `i` becomes
/// `x[i] - h * p[i]`.
pub open spec fn moved_against<S: Scalar>(x: Seq<S>, p: Seq<S>, h: S) -> Seq<S> {
    Seq::new(x.len(), |i: int| x[i].minus_s(h.times_s(p[i])))
}

/// The forward difference quotient `(fa - fb) / h`.
pub open spec fn fwd_quot<S: Scalar>(fa: S, fb: S, h: S) -> S {
    fa.minus_s(fb).div_s(h)
}

/// The central difference quotient `(fp - fm) / (2 * h)`.
pub open spec fn cen_quot<S: Scalar>(fp: S, fm: S, h: S) -> S {
    fp.minus_s(fm).div_s(S::two_s().times_s(h))
}

/// The forward-difference gradient of `f` at `x`: component `i` is the
/// quotient of `f` between `x` bumped at `i` and `x` itself.
pub open spec fn fwd_grad<S: Scalar, F: CostFunction<S>>(f: &F, x: Seq<S>) -> Seq<S> {
    Seq::new(
        x.len(),
        |i: int| fwd_quot(f.cost_spec(bumped(x, i, S::step_s())), f.cost_spec(x), S::step_s()),
    )
}

/// The central-difference gradient of `f` at `x`: component `i` is the
/// quotient of `f` between `x` bumped up and bumped down at `i`.
pub open spec fn cen_grad<S: Scalar, F: CostFunction<S>>(f: &F, x: Seq<S>) -> Seq<S> {
    Seq::new(
        x.len(),
        |i: int|
            cen_quot(
                f.cost_spec(bumped(x, i, S::step_s())),
                f.cost_spec(bumped_down(x, i, S::step_s())),
                S::step_s(),
            ),
    )
}

/// The forward-difference Jacobian of `f` at `x`.  Row `i` holds the
/// derivative estimates of every output with respect to coordinate `i`:
/// entry `(i, j)` is the quotient of output `j` between `x` bumped at `i`
/// and `x` itself.
pub open spec fn fwd_jac<S: Scalar, F: VectorFunction<S>>(f: &F, x: Seq<S>) -> Seq<Seq<S>> {
    Seq::new(
        x.len(),
        |i: int|
            Seq::new(
                f.out_len(),
                |j: int|
                    fwd_quot(
                        f.eval_spec(bumped(x, i, S::step_s()))[j],
                        f.eval_spec(x)[j],
                        S::step_s(),
                    ),
            ),
    )
}

/// The central-difference Jacobian of `f` at `x`, laid out as `fwd_jac`.
pub open spec fn cen_jac<S: Scalar, F: VectorFunction<S>>(f: &F, x: Seq<S>) -> Seq<Seq<S>> {
    Seq::new(
        x.len(),
        |i: int|
            Seq::new(
                f.out_len(),
                |j: int|
                    cen_quot(
                        f.eval_spec(bumped(x, i, S::step_s()))[j],
                        f.eval_spec(bumped_down(x, i, S::step_s()))[j],
                        S::step_s(),
                    ),
            ),
    )
}

/// The forward-difference estimate of the Jacobian of `f` at `x` applied to
/// the direction `p`: component `j` is the quotient of output `j` between
/// `x` moved along `p` and `x` itself.
pub open spec fn fwd_jac_prod<S: Scalar, F: VectorFunction<S>>(f: &F, x: Seq<S>, p: Seq<S>) -> Seq<
    S,
> {
    Seq::new(
        f.out_len(),
        |j: int|
            fwd_quot(
                f.eval_spec(moved_along(x, p, S::step_s()))[j],
                f.eval_spec(x)[j],
                S::step_s(),
            ),
    )
}

/// The central-difference estimate of the Jacobian of `f` at `x` applied to
/// the direction `p`.
pub open spec fn cen_jac_prod<S: Scalar, F: VectorFunction<S>>(f: &F, x: Seq<S>, p: Seq<S>) -> Seq<
    S,
> {
    Seq::new(
        f.out_len(),
        |j: int|
            cen_quot(
                f.eval_spec(moved_along(x, p, S::step_s()))[j],
                f.eval_spec(moved_against(x, p, S::step_s()))[j],
                S::step_s(),
            ),
    )
}

/// The rows of an assembled matrix, as a sequence of sequences.
pub open spec fn matrix_of<S>(m: Seq<Vec<S>>) -> Seq<Seq<S>> {
    Seq::new(m.len(), |i: int| m[i]@)
}

/// Every row is as long as the matrix is high.
pub open spec fn is_square<S>(m: Seq<Seq<S>>) -> bool {
    forall|i: int| 0 <= i < m.len() ==> (#[trigger] m[i]).len() == m.len()
}

/// A square matrix that equals its own transpose.
pub open spec fn is_symmetric<S>(m: Seq<Seq<S>>) -> bool {
    is_square(m) && forall|i: int, j: int|
        0 <= i < m.len() && 0 <= j < m.len() ==> #[trigger] m[i][j] == m[j][i]
}

/// The average `(a + b) / 2` of two entries, in the order the symmetrization
/// pass adds them: upper-triangle entry first.
pub open spec fn avg_s<S: Scalar>(a: S, b: S) -> S {
    a.plus_s(b).div_s(S::two_s())
}

/// The symmetrized copy of a square matrix: each mirrored pair of entries is
/// replaced by one average, computed once from the upper and lower entry, and
/// written to both positions; the diagonal is kept.
pub open spec fn symmetrized<S: Scalar>(m: Seq<Seq<S>>) -> Seq<Seq<S>> {
    Seq::new(
        m.len(),
        |i: int|
            Seq::new(
                m[i].len(),
                |j: int|
                    if i < j {
                        avg_s(m[i][j], m[j][i])
                    } else if j < i {
                        avg_s(m[j][i], m[i][j])
                    } else {
                        m[i][j]
                    },
            ),
    )
}

/// An `n` by `m` matrix of zeros.
pub open spec fn zero_matrix<S: Scalar>(n: nat, m: nat) -> Seq<Seq<S>> {
    Seq::new(n, |i: int| Seq::new(m, |j: int| S::zero_s()))
}

/// The gradient-free second-order difference quotient for the coordinate
/// pair `(i, j)`:
/// `(f(x + h*e_i + h*e_j) - f(x + h*e_i) - f(x + h*e_j) + f(x)) / (h * h)`,
/// where the divisor is the base step that `h` is the square root of, and
/// coordinate `i` is moved before coordinate `j` (so the diagonal pair
/// `(i, i)` evaluates at `x` with coordinate `i` moved twice).
pub open spec fn hess_entry<S: Scalar, F: CostFunction<S>>(f: &F, x: Seq<S>, i: int, j: int) -> S {
    f.cost_spec(bumped(bumped(x, i, S::step_s()), j, S::step_s())).minus_s(
        f.cost_spec(bumped(x, i, S::step_s())),
    ).minus_s(f.cost_spec(bumped(x, j, S::step_s()))).plus_s(f.cost_spec(x)).div_s(
        S::base_step_s(),
    )
}

/// `acc` with the entry at `(a, b)` and its mirror at `(b, a)` both
/// overwritten by `v`.
pub open spec fn sym_write<S: Scalar>(a: int, b: int, v: S, acc: Seq<Seq<S>>) -> Seq<Seq<S>> {
    Seq::new(
        acc.len(),
        |i: int|
            Seq::new(
                acc[i].len(),
                |j: int|
                    if (i == a && j == b) || (i == b && j == a) {
                        v
                    } else {
                        acc[i][j]
                    },
            ),
    )
}

/// The sparse gradient-free forward-difference Hessian of `f` at `x`:
/// starting from the zero matrix, each listed coordinate pair in order has
/// its second-order quotient written to its entry and to the mirrored entry,
/// so callers list each off-diagonal pair only once; entries no pair reaches
/// stay zero.
pub open spec fn fwd_hess_sparse<S: Scalar, F: CostFunction<S>>(
    f: &F,
    x: Seq<S>,
    pairs: Seq<(usize, usize)>,
) -> Seq<Seq<S>>
    decreases pairs.len(),
{
    if pairs.len() == 0 {
        zero_matrix(x.len(), x.len())
    } else {
        let p = pairs.last();
        sym_write(
            p.0 as int,
            p.1 as int,
            hess_entry(f, x, p.0 as int, p.1 as int),
            fwd_hess_sparse(f, x, pairs.drop_last()),
        )
    }
}

/// The sparse Hessian is square with one row per coordinate.
pub proof fn lemma_hess_sparse_dims<S: Scalar, F: CostFunction<S>>(
    f: &F,
    x: Seq<S>,
    pairs: Seq<(usize, usize)>,
)
    ensures
        fwd_hess_sparse(f, x, pairs).len() == x.len(),
        forall|i: int|
            0 <= i < x.len() ==> (#[trigger] fwd_hess_sparse(f, x, pairs)[i]).len() == x.len(),
    decreases pairs.len(),
{
    if pairs.len() > 0 {
        lemma_hess_sparse_dims(f, x, pairs.drop_last());
    }
}

/// Mirrored writes keep the sparse Hessian exactly symmetric, whatever
/// pairs are listed.
pub proof fn lemma_hess_sparse_symmetric<S: Scalar, F: CostFunction<S>>(
    f: &F,
    x: Seq<S>,
    pairs: Seq<(usize, usize)>,
)
    ensures
        is_symmetric(fwd_hess_sparse(f, x, pairs)),
    decreases pairs.len(),
{
    lemma_hess_sparse_dims(f, x, pairs);
    if pairs.len() == 0 {
    } else {
        lemma_hess_sparse_symmetric(f, x, pairs.drop_last());
        lemma_hess_sparse_dims(f, x, pairs.drop_last());
        let acc = fwd_hess_sparse(f, x, pairs.drop_last());
        let s = fwd_hess_sparse(f, x, pairs);
        assert forall|i: int, j: int|
            0 <= i < s.len() && 0 <= j < s.len() implies #[trigger] s[i][j] == s[j][i] by {
            assert(acc[i][j] == acc[j][i]);
        }
    }
}

/// The gradient-free forward-difference Hessian of `f` at `x`: each pair of
/// coordinates is evaluated once, lower triangle first, and mirrored.
pub open spec fn fwd_hess_nograd<S: Scalar, F: CostFunction<S>>(f: &F, x: Seq<S>) -> Seq<Seq<S>> {
    Seq::new(
        x.len(),
        |i: int|
            Seq::new(
                x.len(),
                |j: int|
                    if i >= j {
                        hess_entry(f, x, i, j)
                    } else {
                        hess_entry(f, x, j, i)
                    },
            ),
    )
}

} // verus!
