//! Dense Jacobian differencing, and Jacobian-vector products that perturb
//! along a whole direction at once.

use vstd::prelude::*;

use crate::func::VectorFunction;
use crate::model::{
    bumped, bumped_down, cen_jac, cen_jac_prod, fwd_jac, fwd_jac_prod, matrix_of, moved_against,
    moved_along,
};
use crate::scalar::Scalar;
use crate::utils::{copy_scalars, mod_and_calc_multi_vec_f64};

verus! {

/// The forward-difference Jacobian of `fs` at `x`: row `i` holds, for every
/// output `j`, the quotient `(fs(x + h * e_i)[j] - fs(x)[j]) / h`.  Takes
/// `n + 1` evaluations of `fs`: one shared baseline plus one per coordinate.
pub fn forward_jacobian_vec_f64<S: Scalar, F: VectorFunction<S>>(x: &Vec<S>, fs: &F) -> (jac: Vec<
    Vec<S>,
>)
    ensures
        matrix_of(jac@) == fwd_jac(fs, x@),
{
    let h = S::step();
    let fx = fs.eval(x);
    let m = fx.len();
    let mut xt = copy_scalars(x);
    let mut jac: Vec<Vec<S>> = Vec::new();
    let n = x.len();
    let mut i: usize = 0;
    while i < n
        invariant
            i <= n,
            n == x@.len(),
            m == fs.out_len(),
            h == S::step_s(),
            fx@ == fs.eval_spec(x@),
            fx@.len() == m,
            xt@ == x@,
            jac@.len() == i,
            forall|a: int| 0 <= a < i ==> (#[trigger] jac@[a])@ == fwd_jac(fs, x@)[a],
        decreases n - i,
    {
        let fx1 = mod_and_calc_multi_vec_f64(&mut xt, fs, i, h);
        let mut row: Vec<S> = Vec::new();
        let mut j: usize = 0;
        while j < m
            invariant
                j <= m,
                i < n,
                n == x@.len(),
                m == fs.out_len(),
                h == S::step_s(),
                fx@ == fs.eval_spec(x@),
                fx@.len() == m,
                fx1@ == fs.eval_spec(bumped(x@, i as int, S::step_s())),
                fx1@.len() == m,
                row@.len() == j,
                forall|b: int| 0 <= b < j ==> row@[b] == fwd_jac(fs, x@)[i as int][b],
            decreases m - j,
        {
            row.push(fx1[j].minus(fx[j]).div(h));
            j += 1;
        }
        proof {
            assert(row@ =~= fwd_jac(fs, x@)[i as int]);
        }
        jac.push(row);
        i += 1;
    }
    proof {
        assert(matrix_of(jac@) =~= fwd_jac(fs, x@));
    }
    jac
}

/// The central-difference Jacobian of `fs` at `x`: row `i` holds, for every
/// output `j`, the quotient `(fs(x + h * e_i)[j] - fs(x - h * e_i)[j]) /
/// (2 * h)`.  Takes `2 * n` evaluations of `fs`.
pub fn central_jacobian_vec_f64<S: Scalar, F: VectorFunction<S>>(x: &Vec<S>, fs: &F) -> (jac: Vec<
    Vec<S>,
>)
    ensures
        matrix_of(jac@) == cen_jac(fs, x@),
{
    let h = S::step();
    let two_h = S::two().times(h);
    let mut xt = copy_scalars(x);
    let mut jac: Vec<Vec<S>> = Vec::new();
    let n = x.len();
    let mut i: usize = 0;
    while i < n
        invariant
            i <= n,
            n == x@.len(),
            h == S::step_s(),
            two_h == S::two_s().times_s(S::step_s()),
            xt@ == x@,
            jac@.len() == i,
            forall|a: int| 0 <= a < i ==> (#[trigger] jac@[a])@ == cen_jac(fs, x@)[a],
        decreases n - i,
    {
        let xtmp = xt[i];
        xt.set(i, xtmp.plus(h));
        proof {
            assert(xt@ =~= bumped(x@, i as int, S::step_s()));
        }
        let fx1 = fs.eval(&xt);
        xt.set(i, xtmp.minus(h));
        proof {
            assert(xt@ =~= bumped_down(x@, i as int, S::step_s()));
        }
        let fx2 = fs.eval(&xt);
        xt.set(i, xtmp);
        proof {
            assert(xt@ =~= x@);
        }
        let m = fx1.len();
        let mut row: Vec<S> = Vec::new();
        let mut j: usize = 0;
        while j < m
            invariant
                j <= m,
                i < n,
                n == x@.len(),
                m == fs.out_len(),
                h == S::step_s(),
                two_h == S::two_s().times_s(S::step_s()),
                fx1@ == fs.eval_spec(bumped(x@, i as int, S::step_s())),
                fx1@.len() == m,
                fx2@ == fs.eval_spec(bumped_down(x@, i as int, S::step_s())),
                fx2@.len() == m,
                row@.len() == j,
                forall|b: int| 0 <= b < j ==> row@[b] == cen_jac(fs, x@)[i as int][b],
            decreases m - j,
        {
            row.push(fx1[j].minus(fx2[j]).div(two_h));
            j += 1;
        }
        proof {
            assert(row@ =~= cen_jac(fs, x@)[i as int]);
        }
        jac.push(row);
        i += 1;
    }
    proof {
        assert(matrix_of(jac@) =~= cen_jac(fs, x@));
    }
    jac
}

/// The forward-difference estimate of the product of the Jacobian of `fs` at
/// `x` with the direction `p`: component `j` is
/// `(fs(x + h * p)[j] - fs(x)[j]) / h`.  Takes exactly 2 evaluations of `fs`
/// whatever the dimension, at the price of markedly worse relative accuracy
/// than assembling the dense Jacobian and multiplying.
pub fn forward_jacobian_vec_prod_vec_f64<S: Scalar, F: VectorFunction<S>>(
    x: &Vec<S>,
    fs: &F,
    p: &Vec<S>,
) -> (r: Vec<S>)
    requires
        p@.len() == x@.len(),
    ensures
        r@ == fwd_jac_prod(fs, x@, p@),
{
    let h = S::step();
    let fx = fs.eval(x);
    let n = x.len();
    let mut x1: Vec<S> = Vec::new();
    let mut k: usize = 0;
    while k < n
        invariant
            k <= n,
            n == x@.len(),
            n == p@.len(),
            h == S::step_s(),
            x1@.len() == k,
            forall|a: int| 0 <= a < k ==> x1@[a] == moved_along(x@, p@, S::step_s())[a],
        decreases n - k,
    {
        x1.push(x[k].plus(h.times(p[k])));
        k += 1;
    }
    proof {
        assert(x1@ =~= moved_along(x@, p@, S::step_s()));
    }
    let fx1 = fs.eval(&x1);
    let m = fx.len();
    let mut r: Vec<S> = Vec::new();
    let mut j: usize = 0;
    while j < m
        invariant
            j <= m,
            m == fs.out_len(),
            h == S::step_s(),
            fx@ == fs.eval_spec(x@),
            fx@.len() == m,
            fx1@ == fs.eval_spec(moved_along(x@, p@, S::step_s())),
            fx1@.len() == m,
            r@.len() == j,
            forall|b: int| 0 <= b < j ==> r@[b] == fwd_jac_prod(fs, x@, p@)[b],
        decreases m - j,
    {
        r.push(fx1[j].minus(fx[j]).div(h));
        j += 1;
    }
    proof {
        assert(r@ =~= fwd_jac_prod(fs, x@, p@));
    }
    r
}

/// The central-difference estimate of the product of the Jacobian of `fs` at
/// `x` with the direction `p`: component `j` is
/// `(fs(x + h * p)[j] - fs(x - h * p)[j]) / (2 * h)`.  Takes exactly 2
/// evaluations of `fs` whatever the dimension.
pub fn central_jacobian_vec_prod_vec_f64<S: Scalar, F: VectorFunction<S>>(
    x: &Vec<S>,
    fs: &F,
    p: &Vec<S>,
) -> (r: Vec<S>)
    requires
        p@.len() == x@.len(),
    ensures
        r@ == cen_jac_prod(fs, x@, p@),
{
    let h = S::step();
    let two_h = S::two().times(h);
    let n = x.len();
    let mut x1: Vec<S> = Vec::new();
    let mut x2: Vec<S> = Vec::new();
    let mut k: usize = 0;
    while k < n
        invariant
            k <= n,
            n == x@.len(),
            n == p@.len(),
            h == S::step_s(),
            x1@.len() == k,
            x2@.len() == k,
            forall|a: int| 0 <= a < k ==> x1@[a] == moved_along(x@, p@, S::step_s())[a],
            forall|a: int| 0 <= a < k ==> x2@[a] == moved_against(x@, p@, S::step_s())[a],
        decreases n - k,
    {
        x1.push(x[k].plus(h.times(p[k])));
        x2.push(x[k].minus(h.times(p[k])));
        k += 1;
    }
    proof {
        assert(x1@ =~= moved_along(x@, p@, S::step_s()));
        assert(x2@ =~= moved_against(x@, p@, S::step_s()));
    }
    let fx1 = fs.eval(&x1);
    let fx2 = fs.eval(&x2);
    let m = fx1.len();
    let mut r: Vec<S> = Vec::new();
    let mut j: usize = 0;
    while j < m
        invariant
            j <= m,
            m == fs.out_len(),
            h == S::step_s(),
            two_h == S::two_s().times_s(S::step_s()),
            fx1@ == fs.eval_spec(moved_along(x@, p@, S::step_s())),
            fx1@.len() == m,
            fx2@ == fs.eval_spec(moved_against(x@, p@, S::step_s())),
            fx2@.len() == m,
            r@.len() == j,
            forall|b: int| 0 <= b < j ==> r@[b] == cen_jac_prod(fs, x@, p@)[b],
        decreases m - j,
    {
        r.push(fx1[j].minus(fx2[j]).div(two_h));
        j += 1;
    }
    proof {
        assert(r@ =~= cen_jac_prod(fs, x@, p@));
    }
    r
}

} // verus!
