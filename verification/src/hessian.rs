//! Hessian differencing: through a caller-supplied gradient function, as a
//! Hessian-vector product, or gradient-free from second-order quotients.

use vstd::prelude::*;

use crate::func::{CostFunction, VectorFunction};
use crate::jacobian::{
    central_jacobian_vec_f64, central_jacobian_vec_prod_vec_f64, forward_jacobian_vec_f64,
    forward_jacobian_vec_prod_vec_f64,
};
use crate::model::{
    bumped, cen_jac, cen_jac_prod, fwd_hess_nograd, fwd_hess_sparse, fwd_jac, fwd_jac_prod,
    hess_entry, is_square, is_symmetric, lemma_hess_sparse_dims, lemma_hess_sparse_symmetric,
    matrix_of, sym_write, symmetrized, zero_matrix,
};
use crate::scalar::Scalar;
use crate::utils::{
    copy_scalars, lemma_symmetrized_is_symmetric, mod_and_calc_vec_f64, restore_symmetry_vec_f64,
    set_entry, zero_mat,
};

verus! {

/// The forward-difference Hessian of the function whose gradient `g`
/// computes: the forward Jacobian of `g` at `x`, forced into exact symmetry
/// by averaging mirrored entries.  Takes `n + 1` evaluations of `g`.
pub fn forward_hessian_vec_f64<S: Scalar, G: VectorFunction<S>>(x: &Vec<S>, g: &G) -> (r: Vec<
    Vec<S>,
>)
    requires
        g.out_len() == x@.len(),
    ensures
        matrix_of(r@) == symmetrized(fwd_jac(g, x@)),
        is_symmetric(matrix_of(r@)),
{
    let jac = forward_jacobian_vec_f64(x, g);
    proof {
        assert(is_square(fwd_jac(g, x@))) by {
            assert forall|i: int| 0 <= i < fwd_jac(g, x@).len() implies (#[trigger] fwd_jac(
                g,
                x@,
            )[i]).len() == fwd_jac(g, x@).len() by {}
        }
        lemma_symmetrized_is_symmetric(fwd_jac(g, x@));
    }
    restore_symmetry_vec_f64(jac)
}

/// The central-difference Hessian of the function whose gradient `g`
/// computes: the central Jacobian of `g` at `x`, forced into exact symmetry.
/// Takes `2 * n` evaluations of `g`.
pub fn central_hessian_vec_f64<S: Scalar, G: VectorFunction<S>>(x: &Vec<S>, g: &G) -> (r: Vec<
    Vec<S>,
>)
    requires
        g.out_len() == x@.len(),
    ensures
        matrix_of(r@) == symmetrized(cen_jac(g, x@)),
        is_symmetric(matrix_of(r@)),
{
    let jac = central_jacobian_vec_f64(x, g);
    proof {
        assert(is_square(cen_jac(g, x@))) by {
            assert forall|i: int| 0 <= i < cen_jac(g, x@).len() implies (#[trigger] cen_jac(
                g,
                x@,
            )[i]).len() == cen_jac(g, x@).len() by {}
        }
        lemma_symmetrized_is_symmetric(cen_jac(g, x@));
    }
    restore_symmetry_vec_f64(jac)
}

/// The forward-difference estimate of the product of the Hessian with the
/// direction `p`: the forward Jacobian-vector product of the gradient `g`.
/// Takes exactly 2 evaluations of `g`.
pub fn forward_hessian_vec_prod_vec_f64<S: Scalar, G: VectorFunction<S>>(
    x: &Vec<S>,
    g: &G,
    p: &Vec<S>,
) -> (r: Vec<S>)
    requires
        p@.len() == x@.len(),
    ensures
        r@ == fwd_jac_prod(g, x@, p@),
{
    forward_jacobian_vec_prod_vec_f64(x, g, p)
}

/// The central-difference estimate of the product of the Hessian with the
/// direction `p`: the central Jacobian-vector product of the gradient `g`.
/// Takes exactly 2 evaluations of `g`.
pub fn central_hessian_vec_prod_vec_f64<S: Scalar, G: VectorFunction<S>>(
    x: &Vec<S>,
    g: &G,
    p: &Vec<S>,
) -> (r: Vec<S>)
    requires
        p@.len() == x@.len(),
    ensures
        r@ == cen_jac_prod(g, x@, p@),
{
    central_jacobian_vec_prod_vec_f64(x, g, p)
}

/// Cell `(a, b)` has already been filled once the pair loop, which walks the
/// lower triangle row by row, has passed the pair made of the larger and the
/// smaller of `a` and `b`.
pub(crate) open spec fn pair_done(a: int, b: int, i: int, j: int) -> bool {
    let hi = if a >= b {
        a
    } else {
        b
    };
    let lo = if a >= b {
        b
    } else {
        a
    };
    hi < i || (hi == i && lo < j)
}

/// The gradient-free forward-difference Hessian of the cost function `f` at
/// `x`: entry `(i, j)` of the result is the second-order quotient
/// `(f(x + h*e_i + h*e_j) - f(x + h*e_i) - f(x + h*e_j) + f(x))` divided by
/// the base step, computed once per coordinate pair and mirrored, so the
/// result is exactly symmetric.
pub fn forward_hessian_nograd_vec_f64<S: Scalar, F: CostFunction<S>>(x: &Vec<S>, f: &F) -> (r: Vec<
    Vec<S>,
>)
    ensures
        matrix_of(r@) == fwd_hess_nograd(f, x@),
        is_symmetric(matrix_of(r@)),
{
    let h = S::step();
    let eps = S::base_step();
    let fx = f.cost(x);
    let n = x.len();
    let mut xt = copy_scalars(x);
    let mut fxei: Vec<S> = Vec::new();
    let mut k: usize = 0;
    while k < n
        invariant
            k <= n,
            n == x@.len(),
            h == S::step_s(),
            xt@ == x@,
            fxei@.len() == k,
            forall|a: int| 0 <= a < k ==> fxei@[a] == f.cost_spec(
                bumped(x@, a, S::step_s()),
            ),
        decreases n - k,
    {
        fxei.push(mod_and_calc_vec_f64(&mut xt, f, k, h));
        k += 1;
    }
    let mut out = zero_mat::<S>(n, n);
    proof {
        assert(out@.len() == n) by {
            assert(matrix_of(out@).len() == out@.len());
            assert(zero_matrix::<S>(n as nat, n as nat).len() == n);
        }
        assert forall|a: int| 0 <= a < n implies (#[trigger] out@[a])@.len() == n by {
            assert(matrix_of(out@)[a] == out@[a]@);
            assert(zero_matrix::<S>(n as nat, n as nat)[a].len() == n);
        }
        assert forall|a: int, b: int| 0 <= a < n && 0 <= b < n implies out@[a]@[b]
            == S::zero_s() by {
            assert(matrix_of(out@)[a] == out@[a]@);
        }
    }
    let mut i: usize = 0;
    while i < n
        invariant
            i <= n,
            n == x@.len(),
            h == S::step_s(),
            eps == S::base_step_s(),
            fx == f.cost_spec(x@),
            xt@ == x@,
            fxei@.len() == n,
            forall|a: int| 0 <= a < n ==> fxei@[a] == f.cost_spec(
                bumped(x@, a, S::step_s()),
            ),
            out@.len() == n,
            forall|a: int| 0 <= a < n ==> (#[trigger] out@[a])@.len() == n,
            forall|a: int, b: int|
                0 <= a < n && 0 <= b < n ==> out@[a]@[b] == if pair_done(a, b, i as int, 0) {
                    fwd_hess_nograd(f, x@)[a][b]
                } else {
                    S::zero_s()
                },
        decreases n - i,
    {
        let mut j: usize = 0;
        while j <= i
            invariant
                j <= i + 1,
                i < n,
                n == x@.len(),
                h == S::step_s(),
                eps == S::base_step_s(),
                fx == f.cost_spec(x@),
                xt@ == x@,
                fxei@.len() == n,
                forall|a: int| 0 <= a < n ==> fxei@[a] == f.cost_spec(
                    bumped(x@, a, S::step_s()),
                ),
                out@.len() == n,
                forall|a: int| 0 <= a < n ==> (#[trigger] out@[a])@.len() == n,
                forall|a: int, b: int|
                    0 <= a < n && 0 <= b < n ==> out@[a]@[b] == if pair_done(
                        a,
                        b,
                        i as int,
                        j as int,
                    ) {
                        fwd_hess_nograd(f, x@)[a][b]
                    } else {
                        S::zero_s()
                    },
            decreases i + 1 - j,
        {
            let xti = xt[i];
            xt.set(i, xti.plus(h));
            let xtj = xt[j];
            xt.set(j, xtj.plus(h));
            proof {
                assert(xt@ =~= bumped(bumped(x@, i as int, S::step_s()), j as int, S::step_s()));
            }
            let fxij = f.cost(&xt);
            xt.set(j, xtj);
            xt.set(i, xti);
            proof {
                assert(xt@ =~= x@);
            }
            let t = fxij.minus(fxei[i]).minus(fxei[j]).plus(fx).div(eps);
            proof {
                assert(t == hess_entry(f, x@, i as int, j as int));
            }
            let ghost before = out@;
            set_entry(&mut out, i, j, t);
            let ghost mid = out@;
            set_entry(&mut out, j, i, t);
            proof {
                assert(fwd_hess_nograd(f, x@)[i as int][j as int] == t);
                assert(fwd_hess_nograd(f, x@)[j as int][i as int] == t);
                assert forall|a: int, b: int| 0 <= a < n && 0 <= b < n implies out@[a]@[b] == (
                if pair_done(a, b, i as int, j as int + 1) {
                    fwd_hess_nograd(f, x@)[a][b]
                } else {
                    S::zero_s()
                }) by {
                    assert(mid[i as int]@ == before[i as int]@.update(j as int, t));
                    assert(out@[j as int]@ == mid[j as int]@.update(i as int, t));
                    if a == i && b == j {
                        if i == j {
                            assert(out@[a]@[b] == t);
                        } else {
                            assert(out@[i as int]@ == mid[i as int]@);
                            assert(out@[a]@[b] == t);
                        }
                    } else if a == j && b == i {
                        assert(out@[a]@[b] == t);
                    } else {
                        assert(before[a]@[b] == (if pair_done(a, b, i as int, j as int) {
                            fwd_hess_nograd(f, x@)[a][b]
                        } else {
                            S::zero_s()
                        }));
                        assert(pair_done(a, b, i as int, j as int + 1) == pair_done(
                            a,
                            b,
                            i as int,
                            j as int,
                        ));
                        if a == i {
                            assert(out@[a]@[b] == before[a]@[b]);
                        } else if a == j {
                            assert(mid[j as int]@ == before[j as int]@);
                            assert(out@[a]@[b] == before[a]@[b]);
                        } else {
                            assert(out@[a] == before[a]);
                        }
                    }
                }
            }
            j += 1;
        }
        proof {
            assert forall|a: int, b: int| 0 <= a < n && 0 <= b < n implies out@[a]@[b] == (
            if pair_done(a, b, i as int + 1, 0) {
                fwd_hess_nograd(f, x@)[a][b]
            } else {
                S::zero_s()
            }) by {
                assert(pair_done(a, b, i as int, i as int + 1) == pair_done(
                    a,
                    b,
                    i as int + 1,
                    0,
                ));
            }
        }
        i += 1;
    }
    proof {
        assert forall|a: int| 0 <= a < n implies matrix_of(out@)[a] == fwd_hess_nograd(
            f,
            x@,
        )[a] by {
            assert(matrix_of(out@)[a] == out@[a]@);
            assert forall|b: int| 0 <= b < n implies out@[a]@[b] == fwd_hess_nograd(
                f,
                x@,
            )[a][b] by {
                assert(pair_done(a, b, n as int, 0));
            }
            assert(out@[a]@ =~= fwd_hess_nograd(f, x@)[a]);
        }
        assert(matrix_of(out@) =~= fwd_hess_nograd(f, x@));
        assert(is_symmetric(fwd_hess_nograd(f, x@))) by {
            assert forall|a: int| 0 <= a < n implies (#[trigger] fwd_hess_nograd(f, x@)[a]).len()
                == n by {}
        }
    }
    out
}

/// The sparse gradient-free forward-difference Hessian of `f` at `x`: the
/// second-order quotient of each listed coordinate pair `(a, b)`, with `a`
/// moved before `b`, written to entry `(a, b)` and mirrored to `(b, a)`, so
/// callers list each off-diagonal pair only once.  Entries no pair reaches
/// stay zero, and the result is exactly symmetric.
pub fn forward_hessian_nograd_sparse_vec_f64<S: Scalar, F: CostFunction<S>>(
    x: &Vec<S>,
    f: &F,
    indices: Vec<(usize, usize)>,
) -> (r: Vec<Vec<S>>)
    requires
        forall|k: int|
            0 <= k < indices@.len() ==> (#[trigger] indices@[k]).0 < x@.len() && indices@[k].1
                < x@.len(),
    ensures
        matrix_of(r@) == fwd_hess_sparse(f, x@, indices@),
        is_symmetric(matrix_of(r@)),
{
    let h = S::step();
    let eps = S::base_step();
    let fx = f.cost(x);
    let n = x.len();
    let mut xt = copy_scalars(x);
    let mut out = zero_mat::<S>(n, n);
    proof {
        assert(out@.len() == n) by {
            assert(matrix_of(out@).len() == out@.len());
        }
        assert forall|a: int| 0 <= a < n implies (#[trigger] out@[a])@.len() == n by {
            assert(matrix_of(out@)[a] == out@[a]@);
            assert(zero_matrix::<S>(n as nat, n as nat)[a].len() == n);
        }
        assert(indices@.take(0) =~= Seq::<(usize, usize)>::empty());
        assert forall|a: int, b: int| 0 <= a < n && 0 <= b < n implies out@[a]@[b]
            == fwd_hess_sparse(f, x@, indices@.take(0))[a][b] by {
            assert(matrix_of(out@)[a] == out@[a]@);
        }
    }
    let klen = indices.len();
    let mut k: usize = 0;
    while k < klen
        invariant
            k <= klen,
            klen == indices@.len(),
            n == x@.len(),
            h == S::step_s(),
            eps == S::base_step_s(),
            fx == f.cost_spec(x@),
            xt@ == x@,
            forall|c: int|
                0 <= c < indices@.len() ==> (#[trigger] indices@[c]).0 < n && indices@[c].1 < n,
            out@.len() == n,
            forall|a: int| 0 <= a < n ==> (#[trigger] out@[a])@.len() == n,
            forall|a: int, b: int|
                0 <= a < n && 0 <= b < n ==> out@[a]@[b] == fwd_hess_sparse(
                    f,
                    x@,
                    indices@.take(k as int),
                )[a][b],
        decreases klen - k,
    {
        let pair = indices[k];
        let a = pair.0;
        let b = pair.1;
        let fxa = mod_and_calc_vec_f64(&mut xt, f, a, h);
        let fxb = mod_and_calc_vec_f64(&mut xt, f, b, h);
        let xta = xt[a];
        xt.set(a, xta.plus(h));
        let xtb = xt[b];
        xt.set(b, xtb.plus(h));
        proof {
            assert(xt@ =~= bumped(bumped(x@, a as int, S::step_s()), b as int, S::step_s()));
        }
        let fxab = f.cost(&xt);
        xt.set(b, xtb);
        xt.set(a, xta);
        proof {
            assert(xt@ =~= x@);
        }
        let t = fxab.minus(fxa).minus(fxb).plus(fx).div(eps);
        proof {
            assert(t == hess_entry(f, x@, a as int, b as int));
        }
        let ghost before = out@;
        set_entry(&mut out, a, b, t);
        let ghost mid = out@;
        set_entry(&mut out, b, a, t);
        proof {
            let s = indices@.take(k as int + 1);
            assert(s.drop_last() =~= indices@.take(k as int));
            assert(s.last() == indices@[k as int]);
            lemma_hess_sparse_dims(f, x@, indices@.take(k as int));
            assert forall|i: int, j: int| 0 <= i < n && 0 <= j < n implies out@[i]@[j]
                == fwd_hess_sparse(f, x@, s)[i][j] by {
                assert(before[i]@[j] == fwd_hess_sparse(f, x@, indices@.take(k as int))[i][j]);
                assert(fwd_hess_sparse(f, x@, s) == sym_write(
                    a as int,
                    b as int,
                    hess_entry(f, x@, a as int, b as int),
                    fwd_hess_sparse(f, x@, indices@.take(k as int)),
                ));
                assert(mid[a as int]@ == before[a as int]@.update(b as int, t));
                assert(out@[b as int]@ == mid[b as int]@.update(a as int, t));
                if i == a && j == b {
                    if a == b {
                        assert(out@[i]@[j] == t);
                    } else {
                        assert(out@[a as int]@ == mid[a as int]@);
                        assert(out@[i]@[j] == t);
                    }
                } else if i == b && j == a {
                    assert(out@[i]@[j] == t);
                } else {
                    if i == a {
                        assert(out@[i]@[j] == before[i]@[j]);
                    } else if i == b {
                        assert(mid[b as int]@ == before[b as int]@);
                        assert(out@[i]@[j] == before[i]@[j]);
                    } else {
                        assert(out@[i] == before[i]);
                    }
                }
            }
        }
        k += 1;
    }
    proof {
        assert(indices@.take(klen as int) =~= indices@);
        lemma_hess_sparse_dims(f, x@, indices@);
        assert forall|i: int| 0 <= i < n implies matrix_of(out@)[i] == fwd_hess_sparse(
            f,
            x@,
            indices@,
        )[i] by {
            assert(matrix_of(out@)[i] == out@[i]@);
            assert(out@[i]@ =~= fwd_hess_sparse(f, x@, indices@)[i]);
        }
        assert(matrix_of(out@) =~= fwd_hess_sparse(f, x@, indices@));
        lemma_hess_sparse_symmetric(f, x@, indices@);
    }
    out
}

} // verus!
