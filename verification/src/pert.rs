//! Grouped (sparse) Jacobian differencing.
//!
//! A caller that knows the sparsity structure of its vector function can
//! batch several coordinate perturbations into one evaluation: a
//! [`PerturbationVector`] names the input coordinates moved together and, for
//! each of them, the output components its column receives its quotients
//! from.  The engine evaluates once per group (plus a shared baseline in
//! forward mode) and decodes every listed `(input, output)` pair from the
//! joint evaluation, exactly as if that input had been perturbed alone.  The
//! grouping is trusted, not checked: if two inputs of one group share an
//! affected output, the decoded entry is silently the joint quotient, not
//! the single-coordinate one.

use vstd::prelude::*;

use crate::func::VectorFunction;
use crate::model::{bumped, bumped_down, cen_jac, cen_quot, fwd_jac, fwd_quot, matrix_of, zero_matrix};
use crate::scalar::Scalar;
use crate::utils::{copy_scalars, set_entry, zero_mat};

verus! {

/// One evaluation group: the inputs perturbed together, and for each of
/// them the outputs that its Jacobian column receives.  Entry `t` of
/// `x_idx` is an input coordinate and entry `t` of `r_idx` lists the output
/// components decoded for it.
#[derive(Clone)]
pub struct PerturbationVector {
    pub x_idx: Vec<usize>,
    pub r_idx: Vec<Vec<usize>>,
}

/// The ordered evaluation groups of one sparse Jacobian call, one group per
/// function evaluation.
pub type PerturbationVectors = Vec<PerturbationVector>;

impl PerturbationVector {
    /// An empty group.
    pub fn new() -> (pv: Self)
        ensures
            pv.x_idx@.len() == 0,
            pv.r_idx@.len() == 0,
    {
        PerturbationVector { x_idx: Vec::new(), r_idx: Vec::new() }
    }

    /// The group extended by one perturbed input together with the outputs
    /// decoded for it.
    pub fn add(self, x_idx: usize, r_idx: Vec<usize>) -> (pv: Self)
        ensures
            pv.x_idx@ == self.x_idx@.push(x_idx),
            pv.r_idx@ == self.r_idx@.push(r_idx),
    {
        let mut xs = self.x_idx;
        let mut rs = self.r_idx;
        xs.push(x_idx);
        rs.push(r_idx);
        PerturbationVector { x_idx: xs, r_idx: rs }
    }

    /// Each perturbed input has its list of affected outputs.
    pub open spec fn wf(&self) -> bool {
        self.x_idx@.len() == self.r_idx@.len()
    }

    /// Every listed input lies below `n` and every listed output below `m`.
    pub open spec fn in_bounds(&self, n: nat, m: nat) -> bool {
        (forall|t: int| 0 <= t < self.x_idx@.len() ==> (#[trigger] self.x_idx@[t]) < n)
            && (forall|t: int, u: int|
            0 <= t < self.r_idx@.len() && 0 <= u < self.r_idx@[t]@.len() ==> (
            #[trigger] self.r_idx@[t]@[u]) < m)
    }

    /// Entry `(i, j)` of the Jacobian is decoded by this group.
    pub open spec fn covers(&self, i: int, j: int) -> bool {
        exists|t: int, u: int|
            #![trigger self.r_idx@[t]@[u]]
            0 <= t < self.x_idx@.len() && 0 <= u < self.r_idx@[t]@.len() && self.x_idx@[t] == i
                && self.r_idx@[t]@[u] == j
    }

    /// Entry `(i, j)` is decoded by a pair that the scatter loop, walking
    /// `x_idx` positions and their output lists in order, has already passed
    /// when it stands at position `t_lim` of `x_idx` and offset `u_lim` of
    /// that position's output list.
    pub(crate) open spec fn covers_before(&self, t_lim: int, u_lim: int, i: int, j: int) -> bool {
        exists|t: int, u: int|
            #![trigger self.r_idx@[t]@[u]]
            0 <= t < self.x_idx@.len() && 0 <= u < self.r_idx@[t]@.len() && (t < t_lim || (t
                == t_lim && u < u_lim)) && self.x_idx@[t] == i && self.r_idx@[t]@[u] == j
    }
}

/// `x` with every coordinate listed in `idxs` moved up by `h`, in order; a
/// coordinate listed twice moves twice.
pub open spec fn bump_all<S: Scalar>(x: Seq<S>, idxs: Seq<usize>, h: S) -> Seq<S>
    decreases idxs.len(),
{
    if idxs.len() == 0 {
        x
    } else {
        let prev = bump_all(x, idxs.drop_last(), h);
        prev.update(idxs.last() as int, prev[idxs.last() as int].plus_s(h))
    }
}

/// `x` with every coordinate listed in `idxs` moved down by `h`, in order.
pub open spec fn drop_all<S: Scalar>(x: Seq<S>, idxs: Seq<usize>, h: S) -> Seq<S>
    decreases idxs.len(),
{
    if idxs.len() == 0 {
        x
    } else {
        let prev = drop_all(x, idxs.drop_last(), h);
        prev.update(idxs.last() as int, prev[idxs.last() as int].minus_s(h))
    }
}

/// Moving listed coordinates keeps the length.
pub proof fn lemma_bump_all_len<S: Scalar>(x: Seq<S>, idxs: Seq<usize>, h: S)
    requires
        forall|t: int| 0 <= t < idxs.len() ==> (#[trigger] idxs[t]) < x.len(),
    ensures
        bump_all(x, idxs, h).len() == x.len(),
        drop_all(x, idxs, h).len() == x.len(),
    decreases idxs.len(),
{
    if idxs.len() > 0 {
        lemma_bump_all_len(x, idxs.drop_last(), h);
    }
}

/// A coordinate that `idxs` does not list is not moved.
pub proof fn lemma_bump_all_frame<S: Scalar>(x: Seq<S>, idxs: Seq<usize>, h: S, k: int)
    requires
        0 <= k < x.len(),
        forall|t: int| 0 <= t < idxs.len() ==> (#[trigger] idxs[t]) < x.len(),
        forall|t: int| 0 <= t < idxs.len() ==> (#[trigger] idxs[t]) != k,
    ensures
        bump_all(x, idxs, h)[k] == x[k],
        drop_all(x, idxs, h)[k] == x[k],
    decreases idxs.len(),
{
    if idxs.len() > 0 {
        assert forall|t: int| 0 <= t < idxs.drop_last().len() implies (#[trigger] idxs.drop_last(
        )[t]) < x.len() && idxs.drop_last()[t] != k by {
            assert(idxs.drop_last()[t] == idxs[t]);
        }
        lemma_bump_all_frame(x, idxs.drop_last(), h, k);
        lemma_bump_all_len(x, idxs.drop_last(), h);
        assert(idxs.last() == idxs[idxs.len() - 1]);
        let prev = bump_all(x, idxs.drop_last(), h);
        assert(bump_all(x, idxs, h) == prev.update(
            idxs.last() as int,
            prev[idxs.last() as int].plus_s(h),
        ));
        assert(prev[k] == x[k]);
        assert(idxs.last() as int != k);
        assert(0 <= k < prev.len());
        assert(bump_all(x, idxs, h)[k] == prev[k]);
        let prevd = drop_all(x, idxs.drop_last(), h);
        assert(drop_all(x, idxs, h) == prevd.update(
            idxs.last() as int,
            prevd[idxs.last() as int].minus_s(h),
        ));
        assert(drop_all(x, idxs, h)[k] == prevd[k]);
    }
}

/// The quotient decoded for output `j` from the forward evaluation of group
/// `g`: the function moves from `x` to `x` with all of `g`'s inputs bumped,
/// and output `j`'s change is divided by the step.
pub open spec fn fwd_group_val<S: Scalar, F: VectorFunction<S>>(
    f: &F,
    x: Seq<S>,
    g: PerturbationVector,
    j: int,
) -> S {
    fwd_quot(
        f.eval_spec(bump_all(x, g.x_idx@, S::step_s()))[j],
        f.eval_spec(x)[j],
        S::step_s(),
    )
}

/// The quotient decoded for output `j` from the two central evaluations of
/// group `g`: all of `g`'s inputs bumped up against all of them bumped down.
pub open spec fn cen_group_val<S: Scalar, F: VectorFunction<S>>(
    f: &F,
    x: Seq<S>,
    g: PerturbationVector,
    j: int,
) -> S {
    cen_quot(
        f.eval_spec(bump_all(x, g.x_idx@, S::step_s()))[j],
        f.eval_spec(drop_all(x, g.x_idx@, S::step_s()))[j],
        S::step_s(),
    )
}

/// `acc` with every entry that group `g` covers overwritten by the decoded
/// value `q[j]` of its output column.
pub open spec fn scatter<S: Scalar>(g: PerturbationVector, q: Seq<S>, acc: Seq<Seq<S>>) -> Seq<
    Seq<S>,
> {
    Seq::new(
        acc.len(),
        |i: int|
            Seq::new(
                acc[i].len(),
                |j: int|
                    if g.covers(i, j) {
                        q[j]
                    } else {
                        acc[i][j]
                    },
            ),
    )
}

/// The grouped forward-difference Jacobian of `f` at `x`: starting from the
/// zero matrix, each group in order scatters its decoded quotients; entries
/// that no group lists stay zero.
pub open spec fn fwd_jac_pert<S: Scalar, F: VectorFunction<S>>(
    f: &F,
    x: Seq<S>,
    pert: Seq<PerturbationVector>,
) -> Seq<Seq<S>>
    decreases pert.len(),
{
    if pert.len() == 0 {
        zero_matrix(x.len(), f.out_len())
    } else {
        scatter(
            pert.last(),
            Seq::new(f.out_len(), |j: int| fwd_group_val(f, x, pert.last(), j)),
            fwd_jac_pert(f, x, pert.drop_last()),
        )
    }
}

/// The grouped central-difference Jacobian of `f` at `x`, assembled as
/// `fwd_jac_pert` but from central quotients.
pub open spec fn cen_jac_pert<S: Scalar, F: VectorFunction<S>>(
    f: &F,
    x: Seq<S>,
    pert: Seq<PerturbationVector>,
) -> Seq<Seq<S>>
    decreases pert.len(),
{
    if pert.len() == 0 {
        zero_matrix(x.len(), f.out_len())
    } else {
        scatter(
            pert.last(),
            Seq::new(f.out_len(), |j: int| cen_group_val(f, x, pert.last(), j)),
            cen_jac_pert(f, x, pert.drop_last()),
        )
    }
}

/// Both grouped Jacobians have one row per input coordinate and one column
/// per output component.
pub proof fn lemma_jac_pert_dims<S: Scalar, F: VectorFunction<S>>(
    f: &F,
    x: Seq<S>,
    pert: Seq<PerturbationVector>,
)
    ensures
        fwd_jac_pert(f, x, pert).len() == x.len(),
        forall|i: int|
            0 <= i < x.len() ==> (#[trigger] fwd_jac_pert(f, x, pert)[i]).len() == f.out_len(),
        cen_jac_pert(f, x, pert).len() == x.len(),
        forall|i: int|
            0 <= i < x.len() ==> (#[trigger] cen_jac_pert(f, x, pert)[i]).len() == f.out_len(),
    decreases pert.len(),
{
    if pert.len() > 0 {
        lemma_jac_pert_dims(f, x, pert.drop_last());
    }
}

/// Entry `(i, j)` of the Jacobian is decoded by some group of the sequence.
pub open spec fn pert_covers(pert: Seq<PerturbationVector>, i: int, j: int) -> bool {
    exists|g: int| 0 <= g < pert.len() && (#[trigger] pert[g]).covers(i, j)
}

/// A valid grouping decodes the dense Jacobian: when every group's joint
/// evaluation is indistinguishable, on each output the group decodes, from
/// perturbing the decoded input alone — the separability that a
/// non-conflicting grouping of a sparse function guarantees — then the
/// grouped forward Jacobian agrees with the dense forward Jacobian on every
/// entry some group lists, and every entry no group lists is zero.
pub proof fn lemma_fwd_pert_matches_dense<S: Scalar, F: VectorFunction<S>>(
    f: &F,
    x: Seq<S>,
    pert: Seq<PerturbationVector>,
)
    requires
        forall|g: int| 0 <= g < pert.len() ==> (#[trigger] pert[g]).wf(),
        forall|g: int| 0 <= g < pert.len() ==> (#[trigger] pert[g]).in_bounds(x.len(), f.out_len()),
        forall|g: int, i: int, j: int|
            0 <= g < pert.len() && #[trigger] pert[g].covers(i, j) ==> f.eval_spec(
                bump_all(x, pert[g].x_idx@, S::step_s()),
            )[j] == f.eval_spec(bumped(x, i, S::step_s()))[j],
    ensures
        forall|i: int, j: int|
            #![trigger fwd_jac_pert(f, x, pert)[i][j]]
            0 <= i < x.len() && 0 <= j < f.out_len() && pert_covers(pert, i, j) ==> fwd_jac_pert(
                f,
                x,
                pert,
            )[i][j] == fwd_jac(f, x)[i][j],
        forall|i: int, j: int|
            #![trigger fwd_jac_pert(f, x, pert)[i][j]]
            0 <= i < x.len() && 0 <= j < f.out_len() && !pert_covers(pert, i, j) ==> fwd_jac_pert(
                f,
                x,
                pert,
            )[i][j] == S::zero_s(),
    decreases pert.len(),
{
    lemma_jac_pert_dims(f, x, pert);
    if pert.len() == 0 {
        assert forall|i: int, j: int|
            0 <= i < x.len() && 0 <= j < f.out_len() implies fwd_jac_pert(f, x, pert)[i][j]
            == S::zero_s() by {
            assert(zero_matrix::<S>(x.len(), f.out_len())[i][j] == S::zero_s());
        }
    } else {
        let rest = pert.drop_last();
        let g = pert.last();
        let last = pert.len() - 1;
        assert(pert[last] == g);
        assert forall|k: int| 0 <= k < rest.len() implies (#[trigger] rest[k]) == pert[k] by {}
        lemma_fwd_pert_matches_dense(f, x, rest);
        lemma_jac_pert_dims(f, x, rest);
        let qs = Seq::new(f.out_len(), |b: int| fwd_group_val(f, x, g, b));
        assert(fwd_jac_pert(f, x, pert) == scatter(g, qs, fwd_jac_pert(f, x, rest)));
        assert forall|i: int, j: int|
            0 <= i < x.len() && 0 <= j < f.out_len() implies #[trigger] fwd_jac_pert(
            f,
            x,
            pert,
        )[i][j] == (if pert_covers(pert, i, j) {
            fwd_jac(f, x)[i][j]
        } else {
            S::zero_s()
        }) by {
            if g.covers(i, j) {
                assert(pert[last].covers(i, j));
                assert(pert_covers(pert, i, j));
                assert(f.eval_spec(bump_all(x, g.x_idx@, S::step_s()))[j] == f.eval_spec(
                    bumped(x, i, S::step_s()),
                )[j]);
                assert(fwd_jac_pert(f, x, pert)[i][j] == qs[j]);
                assert(qs[j] == fwd_group_val(f, x, g, j));
                assert(fwd_jac(f, x)[i][j] == fwd_quot(
                    f.eval_spec(bumped(x, i, S::step_s()))[j],
                    f.eval_spec(x)[j],
                    S::step_s(),
                ));
            } else {
                assert(fwd_jac_pert(f, x, pert)[i][j] == fwd_jac_pert(f, x, rest)[i][j]);
                if pert_covers(pert, i, j) {
                    let gw = choose|gw: int|
                        0 <= gw < pert.len() && (#[trigger] pert[gw]).covers(i, j);
                    assert(gw != last);
                    assert(rest[gw] == pert[gw]);
                    assert(rest[gw].covers(i, j));
                    assert(pert_covers(rest, i, j));
                } else {
                    assert(!pert_covers(rest, i, j)) by {
                        if pert_covers(rest, i, j) {
                            let gw = choose|gw: int|
                                0 <= gw < rest.len() && (#[trigger] rest[gw]).covers(i, j);
                            assert(pert[gw].covers(i, j));
                            assert(pert_covers(pert, i, j));
                        }
                    }
                }
            }
        }
    }
}

/// The central counterpart of `lemma_fwd_pert_matches_dense`: with the same
/// separability holding at the jointly-raised and the jointly-lowered
/// points, the grouped central Jacobian agrees with the dense central
/// Jacobian on every listed entry, and every unlisted entry is zero.
pub proof fn lemma_cen_pert_matches_dense<S: Scalar, F: VectorFunction<S>>(
    f: &F,
    x: Seq<S>,
    pert: Seq<PerturbationVector>,
)
    requires
        forall|g: int| 0 <= g < pert.len() ==> (#[trigger] pert[g]).wf(),
        forall|g: int| 0 <= g < pert.len() ==> (#[trigger] pert[g]).in_bounds(x.len(), f.out_len()),
        forall|g: int, i: int, j: int|
            0 <= g < pert.len() && #[trigger] pert[g].covers(i, j) ==> f.eval_spec(
                bump_all(x, pert[g].x_idx@, S::step_s()),
            )[j] == f.eval_spec(bumped(x, i, S::step_s()))[j],
        forall|g: int, i: int, j: int|
            0 <= g < pert.len() && #[trigger] pert[g].covers(i, j) ==> f.eval_spec(
                drop_all(x, pert[g].x_idx@, S::step_s()),
            )[j] == f.eval_spec(bumped_down(x, i, S::step_s()))[j],
    ensures
        forall|i: int, j: int|
            #![trigger cen_jac_pert(f, x, pert)[i][j]]
            0 <= i < x.len() && 0 <= j < f.out_len() && pert_covers(pert, i, j) ==> cen_jac_pert(
                f,
                x,
                pert,
            )[i][j] == cen_jac(f, x)[i][j],
        forall|i: int, j: int|
            #![trigger cen_jac_pert(f, x, pert)[i][j]]
            0 <= i < x.len() && 0 <= j < f.out_len() && !pert_covers(pert, i, j) ==> cen_jac_pert(
                f,
                x,
                pert,
            )[i][j] == S::zero_s(),
    decreases pert.len(),
{
    lemma_jac_pert_dims(f, x, pert);
    if pert.len() == 0 {
        assert forall|i: int, j: int|
            0 <= i < x.len() && 0 <= j < f.out_len() implies cen_jac_pert(f, x, pert)[i][j]
            == S::zero_s() by {
            assert(zero_matrix::<S>(x.len(), f.out_len())[i][j] == S::zero_s());
        }
    } else {
        let rest = pert.drop_last();
        let g = pert.last();
        let last = pert.len() - 1;
        assert(pert[last] == g);
        assert forall|k: int| 0 <= k < rest.len() implies (#[trigger] rest[k]) == pert[k] by {}
        lemma_cen_pert_matches_dense(f, x, rest);
        lemma_jac_pert_dims(f, x, rest);
        let qs = Seq::new(f.out_len(), |b: int| cen_group_val(f, x, g, b));
        assert(cen_jac_pert(f, x, pert) == scatter(g, qs, cen_jac_pert(f, x, rest)));
        assert forall|i: int, j: int|
            0 <= i < x.len() && 0 <= j < f.out_len() implies #[trigger] cen_jac_pert(
            f,
            x,
            pert,
        )[i][j] == (if pert_covers(pert, i, j) {
            cen_jac(f, x)[i][j]
        } else {
            S::zero_s()
        }) by {
            if g.covers(i, j) {
                assert(pert[last].covers(i, j));
                assert(pert_covers(pert, i, j));
                assert(cen_jac_pert(f, x, pert)[i][j] == qs[j]);
                assert(qs[j] == cen_group_val(f, x, g, j));
                assert(cen_jac(f, x)[i][j] == cen_quot(
                    f.eval_spec(bumped(x, i, S::step_s()))[j],
                    f.eval_spec(bumped_down(x, i, S::step_s()))[j],
                    S::step_s(),
                ));
            } else {
                assert(cen_jac_pert(f, x, pert)[i][j] == cen_jac_pert(f, x, rest)[i][j]);
                if pert_covers(pert, i, j) {
                    let gw = choose|gw: int|
                        0 <= gw < pert.len() && (#[trigger] pert[gw]).covers(i, j);
                    assert(gw != last);
                    assert(rest[gw] == pert[gw]);
                    assert(rest[gw].covers(i, j));
                    assert(pert_covers(rest, i, j));
                } else {
                    assert(!pert_covers(rest, i, j)) by {
                        if pert_covers(rest, i, j) {
                            let gw = choose|gw: int|
                                0 <= gw < rest.len() && (#[trigger] rest[gw]).covers(i, j);
                            assert(pert[gw].covers(i, j));
                            assert(pert_covers(pert, i, j));
                        }
                    }
                }
            }
        }
    }
}

/// Moves every input that `idxs` lists up by `h`, in order.
fn apply_bumps<S: Scalar>(xt: &mut Vec<S>, idxs: &Vec<usize>, h: S)
    requires
        forall|t: int| 0 <= t < idxs@.len() ==> (#[trigger] idxs@[t]) < old(xt)@.len(),
    ensures
        final(xt)@ == bump_all(old(xt)@, idxs@, h),
{
    let ghost x0 = xt@;
    let tlen = idxs.len();
    let mut t: usize = 0;
    while t < tlen
        invariant
            t <= tlen,
            tlen == idxs@.len(),
            forall|a: int| 0 <= a < idxs@.len() ==> (#[trigger] idxs@[a]) < x0.len(),
            xt@ == bump_all(x0, idxs@.take(t as int), h),
        decreases tlen - t,
    {
        proof {
            lemma_bump_all_len(x0, idxs@.take(t as int), h);
        }
        let idx = idxs[t];
        let cur = xt[idx];
        xt.set(idx, cur.plus(h));
        proof {
            let pre = idxs@.take(t as int + 1);
            assert(pre.drop_last() =~= idxs@.take(t as int));
            assert(pre.last() == idxs@[t as int]);
            assert(xt@ == bump_all(x0, pre, h));
        }
        t += 1;
    }
    proof {
        assert(idxs@.take(tlen as int) =~= idxs@);
    }
}

/// Moves every input that `idxs` lists down by `h`, in order.
fn apply_drops<S: Scalar>(xt: &mut Vec<S>, idxs: &Vec<usize>, h: S)
    requires
        forall|t: int| 0 <= t < idxs@.len() ==> (#[trigger] idxs@[t]) < old(xt)@.len(),
    ensures
        final(xt)@ == drop_all(old(xt)@, idxs@, h),
{
    let ghost x0 = xt@;
    let tlen = idxs.len();
    let mut t: usize = 0;
    while t < tlen
        invariant
            t <= tlen,
            tlen == idxs@.len(),
            forall|a: int| 0 <= a < idxs@.len() ==> (#[trigger] idxs@[a]) < x0.len(),
            xt@ == drop_all(x0, idxs@.take(t as int), h),
        decreases tlen - t,
    {
        proof {
            lemma_bump_all_len(x0, idxs@.take(t as int), h);
        }
        let idx = idxs[t];
        let cur = xt[idx];
        xt.set(idx, cur.minus(h));
        proof {
            let pre = idxs@.take(t as int + 1);
            assert(pre.drop_last() =~= idxs@.take(t as int));
            assert(pre.last() == idxs@[t as int]);
            assert(xt@ == drop_all(x0, pre, h));
        }
        t += 1;
    }
    proof {
        assert(idxs@.take(tlen as int) =~= idxs@);
    }
}

/// Copies the reference value of every input that `idxs` lists back into the
/// working vector, which restores it completely: inputs that `idxs` does not
/// list already hold their reference value.
fn restore_listed<S: Scalar>(xt: &mut Vec<S>, x: &Vec<S>, idxs: &Vec<usize>)
    requires
        old(xt)@.len() == x@.len(),
        forall|t: int| 0 <= t < idxs@.len() ==> (#[trigger] idxs@[t]) < x@.len(),
        forall|k: int|
            0 <= k < x@.len() && (forall|t: int| 0 <= t < idxs@.len() ==> (#[trigger] idxs@[t])
                != k) ==> old(xt)@[k] == x@[k],
    ensures
        final(xt)@ == x@,
{
    let tlen = idxs.len();
    let mut t: usize = 0;
    while t < tlen
        invariant
            t <= tlen,
            tlen == idxs@.len(),
            xt@.len() == x@.len(),
            forall|a: int| 0 <= a < idxs@.len() ==> (#[trigger] idxs@[a]) < x@.len(),
            forall|k: int|
                0 <= k < x@.len() ==> xt@[k] == x@[k] || (exists|u: int|
                    t <= u < idxs@.len() && (#[trigger] idxs@[u]) == k),
        decreases tlen - t,
    {
        let idx = idxs[t];
        xt.set(idx, x[idx]);
        proof {
            assert forall|k: int|
                0 <= k < x@.len() implies xt@[k] == x@[k] || (exists|u: int|
                t + 1 <= u < idxs@.len() && (#[trigger] idxs@[u]) == k) by {
                if xt@[k] != x@[k] {
                    let u = choose|u: int| t <= u < idxs@.len() && (#[trigger] idxs@[u]) == k;
                    assert(idxs@[u] == k && u != t);
                }
            }
        }
        t += 1;
    }
    proof {
        assert(xt@ =~= x@);
    }
}

/// Writes the decoded column values `q` into every entry that the group `g`
/// lists, leaving all other entries as they were.
fn scatter_group<S: Scalar>(out: &mut Vec<Vec<S>>, g: &PerturbationVector, q: &Vec<S>)
    requires
        g.wf(),
        g.in_bounds(old(out)@.len() as nat, q@.len() as nat),
        forall|a: int| 0 <= a < old(out)@.len() ==> (#[trigger] old(out)@[a])@.len() == q@.len(),
    ensures
        final(out)@.len() == old(out)@.len(),
        forall|a: int| 0 <= a < final(out)@.len() ==> (#[trigger] final(out)@[a])@.len()
            == q@.len(),
        forall|i: int, j: int|
            0 <= i < final(out)@.len() && 0 <= j < q@.len() ==> final(out)@[i]@[j] == (
            if g.covers(i, j) {
                q@[j]
            } else {
                old(out)@[i]@[j]
            }),
{
    let ghost base = out@;
    let n = out.len();
    let m = q.len();
    let tlen = g.x_idx.len();
    let mut t: usize = 0;
    while t < tlen
        invariant
            t <= tlen,
            tlen == g.x_idx@.len(),
            g.wf(),
            g.in_bounds(n as nat, m as nat),
            n == base.len(),
            m == q@.len(),
            out@.len() == n,
            forall|a: int| 0 <= a < n ==> (#[trigger] out@[a])@.len() == m,
            forall|a: int| 0 <= a < n ==> (#[trigger] base[a])@.len() == m,
            forall|i: int, j: int|
                0 <= i < n && 0 <= j < m ==> out@[i]@[j] == (if g.covers_before(
                    t as int,
                    0,
                    i,
                    j,
                ) {
                    q@[j]
                } else {
                    base[i]@[j]
                }),
        decreases tlen - t,
    {
        let i0 = g.x_idx[t];
        let row = &g.r_idx[t];
        let ulen = row.len();
        let mut u: usize = 0;
        while u < ulen
            invariant
                u <= ulen,
                t < tlen,
                tlen == g.x_idx@.len(),
                g.wf(),
                g.in_bounds(n as nat, m as nat),
                n == base.len(),
                m == q@.len(),
                i0 == g.x_idx@[t as int],
                row@ == g.r_idx@[t as int]@,
                ulen == g.r_idx@[t as int]@.len(),
                out@.len() == n,
                forall|a: int| 0 <= a < n ==> (#[trigger] out@[a])@.len() == m,
                forall|a: int| 0 <= a < n ==> (#[trigger] base[a])@.len() == m,
                forall|i: int, j: int|
                    0 <= i < n && 0 <= j < m ==> out@[i]@[j] == (if g.covers_before(
                        t as int,
                        u as int,
                        i,
                        j,
                    ) {
                        q@[j]
                    } else {
                        base[i]@[j]
                    }),
            decreases ulen - u,
        {
            let j0 = row[u];
            let ghost before = out@;
            set_entry(out, i0, j0, q[j0]);
            proof {
                assert forall|i: int, j: int|
                    0 <= i < n && 0 <= j < m implies out@[i]@[j] == (if g.covers_before(
                    t as int,
                    u as int + 1,
                    i,
                    j,
                ) {
                    q@[j]
                } else {
                    base[i]@[j]
                }) by {
                    if i == i0 && j == j0 {
                        assert(g.x_idx@[t as int] == i && g.r_idx@[t as int]@[u as int] == j);
                        assert(g.covers_before(t as int, u as int + 1, i, j));
                        assert(out@[i]@[j] == q@[j]);
                    } else {
                        assert(out@[i]@[j] == before[i]@[j]);
                        if g.covers_before(t as int, u as int + 1, i, j) {
                            let (tw, uw) = choose|tw: int, uw: int|
                                0 <= tw < g.x_idx@.len() && 0 <= uw < g.r_idx@[tw]@.len() && (tw
                                    < t as int || (tw == t as int && uw < u as int + 1))
                                    && g.x_idx@[tw] == i && (#[trigger] g.r_idx@[tw]@[uw]) == j;
                            assert(!(tw == t as int && uw == u as int));
                            assert(g.covers_before(t as int, u as int, i, j));
                        }
                        if g.covers_before(t as int, u as int, i, j) {
                            assert(g.covers_before(t as int, u as int + 1, i, j));
                        }
                    }
                }
            }
            u += 1;
        }
        proof {
            assert forall|i: int, j: int|
                0 <= i < n && 0 <= j < m implies out@[i]@[j] == (if g.covers_before(
                t as int + 1,
                0,
                i,
                j,
            ) {
                q@[j]
            } else {
                base[i]@[j]
            }) by {
                assert(out@[i]@[j] == (if g.covers_before(t as int, ulen as int, i, j) {
                    q@[j]
                } else {
                    base[i]@[j]
                }));
                if g.covers_before(t as int + 1, 0, i, j) {
                    let (tw, uw) = choose|tw: int, uw: int|
                        0 <= tw < g.x_idx@.len() && 0 <= uw < g.r_idx@[tw]@.len() && (tw < t as int
                            + 1 || (tw == t as int + 1 && uw < 0)) && g.x_idx@[tw] == i && (
                        #[trigger] g.r_idx@[tw]@[uw]) == j;
                    assert(tw < t as int || (tw == t as int && uw < ulen as int));
                    assert(g.covers_before(t as int, ulen as int, i, j));
                }
                if g.covers_before(t as int, ulen as int, i, j) {
                    let (tw, uw) = choose|tw: int, uw: int|
                        0 <= tw < g.x_idx@.len() && 0 <= uw < g.r_idx@[tw]@.len() && (tw < t as int
                            || (tw == t as int && uw < ulen as int)) && g.x_idx@[tw] == i && (
                        #[trigger] g.r_idx@[tw]@[uw]) == j;
                    assert(g.covers_before(t as int + 1, 0, i, j));
                }
            }
        }
        t += 1;
    }
    proof {
        assert forall|i: int, j: int|
            0 <= i < n && 0 <= j < m implies out@[i]@[j] == (if g.covers(i, j) {
            q@[j]
        } else {
            base[i]@[j]
        }) by {
            assert(out@[i]@[j] == (if g.covers_before(tlen as int, 0, i, j) {
                q@[j]
            } else {
                base[i]@[j]
            }));
            if g.covers_before(tlen as int, 0, i, j) {
                let (tw, uw) = choose|tw: int, uw: int|
                    0 <= tw < g.x_idx@.len() && 0 <= uw < g.r_idx@[tw]@.len() && (tw < tlen as int
                        || (tw == tlen as int && uw < 0)) && g.x_idx@[tw] == i && (
                    #[trigger] g.r_idx@[tw]@[uw]) == j;
                assert(g.covers(i, j));
            }
            if g.covers(i, j) {
                let (tw, uw) = choose|tw: int, uw: int|
                    0 <= tw < g.x_idx@.len() && 0 <= uw < g.r_idx@[tw]@.len() && g.x_idx@[tw] == i
                        && (#[trigger] g.r_idx@[tw]@[uw]) == j;
                assert(tw < tlen as int);
                assert(g.covers_before(tlen as int, 0, i, j));
            }
        }
    }
}

/// The grouped forward-difference Jacobian of `fs` at `x`: one evaluation
/// per group beyond the shared baseline.  Each group's inputs are moved up
/// by the step together, and for every `(input, output)` pair the group
/// lists, the forward quotient of that output is written into the entry that
/// the dense path would fill from the same input; entries no group lists
/// stay zero.  Takes `k + 1` evaluations of `fs` for `k` groups.
pub fn forward_jacobian_pert_vec_f64<S: Scalar, F: VectorFunction<S>>(
    x: &Vec<S>,
    fs: &F,
    pert: PerturbationVectors,
) -> (jac: Vec<Vec<S>>)
    requires
        forall|gi: int| 0 <= gi < pert@.len() ==> (#[trigger] pert@[gi]).wf(),
        forall|gi: int|
            0 <= gi < pert@.len() ==> (#[trigger] pert@[gi]).in_bounds(x@.len(), fs.out_len()),
    ensures
        matrix_of(jac@) == fwd_jac_pert(fs, x@, pert@),
{
    let h = S::step();
    let fx = fs.eval(x);
    let m = fx.len();
    let n = x.len();
    let mut xt = copy_scalars(x);
    let mut out = zero_mat::<S>(n, m);
    proof {
        assert(out@.len() == n) by {
            assert(matrix_of(out@).len() == out@.len());
        }
        assert forall|a: int| 0 <= a < n implies (#[trigger] out@[a])@.len() == m by {
            assert(matrix_of(out@)[a] == out@[a]@);
            assert(zero_matrix::<S>(n as nat, m as nat)[a].len() == m);
        }
        assert(pert@.take(0) =~= Seq::<PerturbationVector>::empty());
        assert forall|i: int, j: int| 0 <= i < n && 0 <= j < m implies out@[i]@[j] == fwd_jac_pert(
            fs,
            x@,
            pert@.take(0),
        )[i][j] by {
            assert(matrix_of(out@)[i] == out@[i]@);
        }
    }
    let glen = pert.len();
    let mut gi: usize = 0;
    while gi < glen
        invariant
            gi <= glen,
            glen == pert@.len(),
            n == x@.len(),
            m == fs.out_len(),
            h == S::step_s(),
            fx@ == fs.eval_spec(x@),
            fx@.len() == m,
            xt@ == x@,
            forall|a: int| 0 <= a < pert@.len() ==> (#[trigger] pert@[a]).wf(),
            forall|a: int|
                0 <= a < pert@.len() ==> (#[trigger] pert@[a]).in_bounds(x@.len(), fs.out_len()),
            out@.len() == n,
            forall|a: int| 0 <= a < n ==> (#[trigger] out@[a])@.len() == m,
            forall|i: int, j: int|
                0 <= i < n && 0 <= j < m ==> out@[i]@[j] == fwd_jac_pert(
                    fs,
                    x@,
                    pert@.take(gi as int),
                )[i][j],
        decreases glen - gi,
    {
        let pg = &pert[gi];
        apply_bumps(&mut xt, &pg.x_idx, h);
        let fx1 = fs.eval(&xt);
        proof {
            lemma_bump_all_len(x@, pert@[gi as int].x_idx@, S::step_s());
            assert forall|k: int|
                0 <= k < x@.len() && (forall|t: int|
                    0 <= t < pg.x_idx@.len() ==> (#[trigger] pg.x_idx@[t]) != k) implies xt@[k]
                == x@[k] by {
                lemma_bump_all_frame(x@, pert@[gi as int].x_idx@, S::step_s(), k);
            }
        }
        restore_listed(&mut xt, x, &pg.x_idx);
        let mut q: Vec<S> = Vec::new();
        let mut j: usize = 0;
        while j < m
            invariant
                j <= m,
                gi < glen,
                glen == pert@.len(),
                m == fs.out_len(),
                h == S::step_s(),
                fx@ == fs.eval_spec(x@),
                fx@.len() == m,
                fx1@ == fs.eval_spec(bump_all(x@, pert@[gi as int].x_idx@, S::step_s())),
                fx1@.len() == m,
                q@.len() == j,
                forall|b: int|
                    0 <= b < j ==> q@[b] == fwd_group_val(fs, x@, pert@[gi as int], b),
            decreases m - j,
        {
            q.push(fx1[j].minus(fx[j]).div(h));
            j += 1;
        }
        let ghost prev = out@;
        scatter_group(&mut out, pg, &q);
        proof {
            let grp = pert@[gi as int];
            let s = pert@.take(gi as int + 1);
            assert(s.drop_last() =~= pert@.take(gi as int));
            assert(s.last() == grp);
            lemma_jac_pert_dims(fs, x@, pert@.take(gi as int));
            let qs = Seq::new(fs.out_len(), |b: int| fwd_group_val(fs, x@, grp, b));
            assert forall|i: int, j2: int|
                0 <= i < n && 0 <= j2 < m implies out@[i]@[j2] == fwd_jac_pert(fs, x@, s)[i][j2] by {
                assert(fwd_jac_pert(fs, x@, s) == scatter(grp, qs, fwd_jac_pert(
                    fs,
                    x@,
                    pert@.take(gi as int),
                )));
                assert(q@[j2] == qs[j2]);
                assert(prev[i]@[j2] == fwd_jac_pert(fs, x@, pert@.take(gi as int))[i][j2]);
            }
        }
        gi += 1;
    }
    proof {
        assert(pert@.take(glen as int) =~= pert@);
        lemma_jac_pert_dims(fs, x@, pert@);
        assert forall|i: int| 0 <= i < n implies matrix_of(out@)[i] == fwd_jac_pert(
            fs,
            x@,
            pert@,
        )[i] by {
            assert(matrix_of(out@)[i] == out@[i]@);
            assert(out@[i]@ =~= fwd_jac_pert(fs, x@, pert@)[i]);
        }
        assert(matrix_of(out@) =~= fwd_jac_pert(fs, x@, pert@));
    }
    out
}

/// The grouped central-difference Jacobian of `fs` at `x`: two evaluations
/// per group, with each group's inputs moved up together and then down
/// together, and every listed `(input, output)` pair decoded as a central
/// quotient; entries no group lists stay zero.  Takes `2 * k` evaluations of
/// `fs` for `k` groups.
pub fn central_jacobian_pert_vec_f64<S: Scalar, F: VectorFunction<S>>(
    x: &Vec<S>,
    fs: &F,
    pert: PerturbationVectors,
) -> (jac: Vec<Vec<S>>)
    requires
        forall|gi: int| 0 <= gi < pert@.len() ==> (#[trigger] pert@[gi]).wf(),
        forall|gi: int|
            0 <= gi < pert@.len() ==> (#[trigger] pert@[gi]).in_bounds(x@.len(), fs.out_len()),
    ensures
        matrix_of(jac@) == cen_jac_pert(fs, x@, pert@),
{
    let h = S::step();
    let two_h = S::two().times(h);
    let n = x.len();
    let mut xt = copy_scalars(x);
    let m = fs.dim();
    let mut out = zero_mat::<S>(n, m);
    proof {
        assert(out@.len() == n) by {
            assert(matrix_of(out@).len() == out@.len());
        }
        assert forall|a: int| 0 <= a < n implies (#[trigger] out@[a])@.len() == m by {
            assert(matrix_of(out@)[a] == out@[a]@);
            assert(zero_matrix::<S>(n as nat, m as nat)[a].len() == m);
        }
        assert(pert@.take(0) =~= Seq::<PerturbationVector>::empty());
        assert forall|i: int, j: int| 0 <= i < n && 0 <= j < m implies out@[i]@[j] == cen_jac_pert(
            fs,
            x@,
            pert@.take(0),
        )[i][j] by {
            assert(matrix_of(out@)[i] == out@[i]@);
        }
    }
    let glen = pert.len();
    let mut gi: usize = 0;
    while gi < glen
        invariant
            gi <= glen,
            glen == pert@.len(),
            n == x@.len(),
            m == fs.out_len(),
            h == S::step_s(),
            two_h == S::two_s().times_s(S::step_s()),
            xt@ == x@,
            forall|a: int| 0 <= a < pert@.len() ==> (#[trigger] pert@[a]).wf(),
            forall|a: int|
                0 <= a < pert@.len() ==> (#[trigger] pert@[a]).in_bounds(x@.len(), fs.out_len()),
            out@.len() == n,
            forall|a: int| 0 <= a < n ==> (#[trigger] out@[a])@.len() == m,
            forall|i: int, j: int|
                0 <= i < n && 0 <= j < m ==> out@[i]@[j] == cen_jac_pert(
                    fs,
                    x@,
                    pert@.take(gi as int),
                )[i][j],
        decreases glen - gi,
    {
        let pg = &pert[gi];
        apply_bumps(&mut xt, &pg.x_idx, h);
        let fx1 = fs.eval(&xt);
        proof {
            lemma_bump_all_len(x@, pert@[gi as int].x_idx@, S::step_s());
            assert forall|k: int|
                0 <= k < x@.len() && (forall|t: int|
                    0 <= t < pg.x_idx@.len() ==> (#[trigger] pg.x_idx@[t]) != k) implies xt@[k]
                == x@[k] by {
                lemma_bump_all_frame(x@, pert@[gi as int].x_idx@, S::step_s(), k);
            }
        }
        restore_listed(&mut xt, x, &pg.x_idx);
        apply_drops(&mut xt, &pg.x_idx, h);
        let fx2 = fs.eval(&xt);
        proof {
            lemma_bump_all_len(x@, pert@[gi as int].x_idx@, S::step_s());
            assert forall|k: int|
                0 <= k < x@.len() && (forall|t: int|
                    0 <= t < pg.x_idx@.len() ==> (#[trigger] pg.x_idx@[t]) != k) implies xt@[k]
                == x@[k] by {
                lemma_bump_all_frame(x@, pert@[gi as int].x_idx@, S::step_s(), k);
            }
        }
        restore_listed(&mut xt, x, &pg.x_idx);
        let mut q: Vec<S> = Vec::new();
        let mut j: usize = 0;
        while j < m
            invariant
                j <= m,
                gi < glen,
                glen == pert@.len(),
                m == fs.out_len(),
                h == S::step_s(),
                two_h == S::two_s().times_s(S::step_s()),
                fx1@ == fs.eval_spec(bump_all(x@, pert@[gi as int].x_idx@, S::step_s())),
                fx1@.len() == m,
                fx2@ == fs.eval_spec(drop_all(x@, pert@[gi as int].x_idx@, S::step_s())),
                fx2@.len() == m,
                q@.len() == j,
                forall|b: int|
                    0 <= b < j ==> q@[b] == cen_group_val(fs, x@, pert@[gi as int], b),
            decreases m - j,
        {
            q.push(fx1[j].minus(fx2[j]).div(two_h));
            j += 1;
        }
        let ghost prev = out@;
        scatter_group(&mut out, pg, &q);
        proof {
            let grp = pert@[gi as int];
            let s = pert@.take(gi as int + 1);
            assert(s.drop_last() =~= pert@.take(gi as int));
            assert(s.last() == grp);
            lemma_jac_pert_dims(fs, x@, pert@.take(gi as int));
            let qs = Seq::new(fs.out_len(), |b: int| cen_group_val(fs, x@, grp, b));
            assert forall|i: int, j2: int|
                0 <= i < n && 0 <= j2 < m implies out@[i]@[j2] == cen_jac_pert(fs, x@, s)[i][j2] by {
                assert(cen_jac_pert(fs, x@, s) == scatter(grp, qs, cen_jac_pert(
                    fs,
                    x@,
                    pert@.take(gi as int),
                )));
                assert(q@[j2] == qs[j2]);
                assert(prev[i]@[j2] == cen_jac_pert(fs, x@, pert@.take(gi as int))[i][j2]);
            }
        }
        gi += 1;
    }
    proof {
        assert(pert@.take(glen as int) =~= pert@);
        lemma_jac_pert_dims(fs, x@, pert@);
        assert forall|i: int| 0 <= i < n implies matrix_of(out@)[i] == cen_jac_pert(
            fs,
            x@,
            pert@,
        )[i] by {
            assert(matrix_of(out@)[i] == out@[i]@);
            assert(out@[i]@ =~= cen_jac_pert(fs, x@, pert@)[i]);
        }
        assert(matrix_of(out@) =~= cen_jac_pert(fs, x@, pert@));
    }
    out
}

} // verus!
