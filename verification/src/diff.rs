//! Dense scalar-gradient differencing: one perturbed coordinate at a time.

use vstd::prelude::*;

use crate::func::CostFunction;
use crate::model::{bumped, bumped_down, cen_grad, fwd_grad};
use crate::scalar::Scalar;
use crate::utils::{copy_scalars, mod_and_calc_vec_f64};

verus! {

/// The forward-difference gradient of `f` at `x`: component `i` is
/// `(f(x + h * e_i) - f(x)) / h` with the shared step `h`.  Takes `n + 1`
/// evaluations of `f`: one baseline plus one per coordinate.
pub fn forward_diff_vec_f64<S: Scalar, F: CostFunction<S>>(x: &Vec<S>, f: &F) -> (g: Vec<S>)
    ensures
        g@ == fwd_grad(f, x@),
{
    let h = S::step();
    let fx = f.cost(x);
    let mut xt = copy_scalars(x);
    let mut g: Vec<S> = Vec::new();
    let n = x.len();
    let mut i: usize = 0;
    while i < n
        invariant
            i <= n,
            n == x@.len(),
            h == S::step_s(),
            fx == f.cost_spec(x@),
            xt@ == x@,
            g@.len() == i,
            forall|k: int| 0 <= k < i ==> g@[k] == fwd_grad(f, x@)[k],
        decreases n - i,
    {
        let fx1 = mod_and_calc_vec_f64(&mut xt, f, i, h);
        g.push(fx1.minus(fx).div(h));
        i += 1;
    }
    proof {
        assert(g@ =~= fwd_grad(f, x@));
    }
    g
}

/// The central-difference gradient of `f` at `x`: component `i` is
/// `(f(x + h * e_i) - f(x - h * e_i)) / (2 * h)`.  Takes `2 * n` evaluations
/// of `f`; no baseline is shared, and the truncation error is one order
/// better than the forward variant's.
pub fn central_diff_vec_f64<S: Scalar, F: CostFunction<S>>(x: &Vec<S>, f: &F) -> (g: Vec<S>)
    ensures
        g@ == cen_grad(f, x@),
{
    let h = S::step();
    let two_h = S::two().times(h);
    let mut xt = copy_scalars(x);
    let mut g: Vec<S> = Vec::new();
    let n = x.len();
    let mut i: usize = 0;
    while i < n
        invariant
            i <= n,
            n == x@.len(),
            h == S::step_s(),
            two_h == S::two_s().times_s(S::step_s()),
            xt@ == x@,
            g@.len() == i,
            forall|k: int| 0 <= k < i ==> g@[k] == cen_grad(f, x@)[k],
        decreases n - i,
    {
        let xtmp = xt[i];
        xt.set(i, xtmp.plus(h));
        proof {
            assert(xt@ =~= bumped(x@, i as int, S::step_s()));
        }
        let fx1 = f.cost(&xt);
        xt.set(i, xtmp.minus(h));
        proof {
            assert(xt@ =~= bumped_down(x@, i as int, S::step_s()));
        }
        let fx2 = f.cost(&xt);
        xt.set(i, xtmp);
        proof {
            assert(xt@ =~= x@);
        }
        g.push(fx1.minus(fx2).div(two_h));
        i += 1;
    }
    proof {
        assert(g@ =~= cen_grad(f, x@));
    }
    g
}

} // verus!
