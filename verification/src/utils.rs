//! Shared helpers: the perturb-evaluate-restore step that every differencing
//! routine is built from, and the symmetrization pass applied to Hessians.

use vstd::prelude::*;

use crate::func::{CostFunction, VectorFunction};
use crate::model::{avg_s, bumped, is_square, is_symmetric, matrix_of, symmetrized, zero_matrix};
use crate::scalar::Scalar;

verus! {

/// An owned copy of a vector of scalars.
pub(crate) fn copy_scalars<S: Scalar>(x: &Vec<S>) -> (r: Vec<S>)
    ensures
        r@ == x@,
{
    let mut r: Vec<S> = Vec::new();
    let mut k: usize = 0;
    while k < x.len()
        invariant
            k <= x@.len(),
            r@ == x@.take(k as int),
        decreases x@.len() - k,
    {
        r.push(x[k]);
        proof {
            assert(r@ =~= x@.take(k as int + 1));
        }
        k += 1;
    }
    proof {
        assert(r@ =~= x@);
    }
    r
}

/// An `n` by `m` matrix of zeros, the canvas the sparse paths write into.
pub(crate) fn zero_mat<S: Scalar>(n: usize, m: usize) -> (r: Vec<Vec<S>>)
    ensures
        matrix_of(r@) == zero_matrix::<S>(n as nat, m as nat),
{
    let mut r: Vec<Vec<S>> = Vec::new();
    let mut i: usize = 0;
    while i < n
        invariant
            i <= n,
            r@.len() == i,
            forall|a: int| 0 <= a < i ==> (#[trigger] r@[a])@ == zero_matrix::<S>(
                n as nat,
                m as nat,
            )[a],
        decreases n - i,
    {
        let mut row: Vec<S> = Vec::new();
        let mut j: usize = 0;
        while j < m
            invariant
                j <= m,
                row@.len() == j,
                forall|b: int| 0 <= b < j ==> row@[b] == S::zero_s(),
            decreases m - j,
        {
            row.push(S::zero());
            j += 1;
        }
        proof {
            assert(row@ =~= zero_matrix::<S>(n as nat, m as nat)[i as int]);
        }
        r.push(row);
        i += 1;
    }
    proof {
        assert(matrix_of(r@) =~= zero_matrix::<S>(n as nat, m as nat));
    }
    r
}

/// Overwrites one entry of an assembled matrix, leaving every other row
/// untouched.
pub(crate) fn set_entry<S: Scalar>(mat: &mut Vec<Vec<S>>, i: usize, j: usize, v: S)
    requires
        i < old(mat)@.len(),
        j < old(mat)@[i as int]@.len(),
    ensures
        final(mat)@.len() == old(mat)@.len(),
        forall|a: int| 0 <= a < old(mat)@.len() && a != i ==> final(mat)@[a] == old(mat)@[a],
        final(mat)@[i as int]@ == old(mat)@[i as int]@.update(j as int, v),
{
    mat[i].set(j, v);
}

/// Moves coordinate `idx` of `x` by `y`, evaluates the cost function there,
/// and restores the coordinate before returning: the transient perturbation
/// never escapes.
pub fn mod_and_calc_vec_f64<S: Scalar, F: CostFunction<S>>(
    x: &mut Vec<S>,
    f: &F,
    idx: usize,
    y: S,
) -> (r: S)
    requires
        idx < old(x)@.len(),
    ensures
        r == f.cost_spec(bumped(old(x)@, idx as int, y)),
        final(x)@ == old(x)@,
{
    let xtmp = x[idx];
    x.set(idx, xtmp.plus(y));
    let fx1 = f.cost(x);
    x.set(idx, xtmp);
    proof {
        assert(x@ =~= old(x)@);
    }
    fx1
}

/// The counterpart of `mod_and_calc_vec_f64` for vector-valued functions:
/// moves coordinate `idx` by `y`, evaluates there, restores.
pub fn mod_and_calc_multi_vec_f64<S: Scalar, F: VectorFunction<S>>(
    x: &mut Vec<S>,
    f: &F,
    idx: usize,
    y: S,
) -> (r: Vec<S>)
    requires
        idx < old(x)@.len(),
    ensures
        r@ == f.eval_spec(bumped(old(x)@, idx as int, y)),
        r@.len() == f.out_len(),
        final(x)@ == old(x)@,
{
    let xtmp = x[idx];
    x.set(idx, xtmp.plus(y));
    let fx1 = f.eval(x);
    x.set(idx, xtmp);
    proof {
        assert(x@ =~= old(x)@);
    }
    fx1
}

/// Forces a square matrix with floating-point asymmetry into exact symmetry:
/// each mirrored pair of entries is averaged once and the average written to
/// both positions, while the diagonal is kept unchanged.
pub fn restore_symmetry_vec_f64<S: Scalar>(mat: Vec<Vec<S>>) -> (r: Vec<Vec<S>>)
    requires
        is_square(matrix_of(mat@)),
    ensures
        matrix_of(r@) == symmetrized(matrix_of(mat@)),
{
    let n = mat.len();
    let mut r: Vec<Vec<S>> = Vec::new();
    let mut i: usize = 0;
    while i < n
        invariant
            i <= n,
            n == mat@.len(),
            is_square(matrix_of(mat@)),
            r@.len() == i,
            forall|a: int| 0 <= a < i ==> (#[trigger] r@[a])@ == symmetrized(matrix_of(mat@))[a],
        decreases n - i,
    {
        let mut row: Vec<S> = Vec::new();
        let mut j: usize = 0;
        while j < n
            invariant
                j <= n,
                i < n,
                n == mat@.len(),
                is_square(matrix_of(mat@)),
                row@.len() == j,
                forall|b: int|
                    0 <= b < j ==> row@[b] == symmetrized(matrix_of(mat@))[i as int][b],
            decreases n - j,
        {
            proof {
                assert(matrix_of(mat@)[i as int] == mat@[i as int]@);
                assert(matrix_of(mat@)[j as int] == mat@[j as int]@);
                assert(mat@[i as int]@.len() == n);
                assert(mat@[j as int]@.len() == n);
            }
            let entry = if i < j {
                let upper = mat[i][j];
                let lower = mat[j][i];
                upper.plus(lower).div(S::two())
            } else if j < i {
                let upper = mat[j][i];
                let lower = mat[i][j];
                upper.plus(lower).div(S::two())
            } else {
                mat[i][j]
            };
            proof {
                assert(entry == symmetrized(matrix_of(mat@))[i as int][j as int]);
            }
            row.push(entry);
            j += 1;
        }
        proof {
            assert(row@ =~= symmetrized(matrix_of(mat@))[i as int]);
        }
        r.push(row);
        i += 1;
    }
    proof {
        assert(matrix_of(r@) =~= symmetrized(matrix_of(mat@)));
    }
    r
}

/// Symmetrization leaves an already-symmetric square matrix unchanged,
/// provided the scalar halves a doubled value back to itself
/// (`(a + a) / 2 == a` for every entry value), which binary floating point
/// supplies away from overflow and invalid values.
pub proof fn lemma_symmetrized_fixed_on_symmetric<S: Scalar>(m: Seq<Seq<S>>)
    requires
        is_symmetric(m),
        forall|a: S| #[trigger] avg_s(a, a) == a,
    ensures
        symmetrized(m) == m,
{
    let s = symmetrized(m);
    assert forall|i: int| 0 <= i < m.len() implies s[i] == m[i] by {
        assert(m[i].len() == m.len());
        assert forall|j: int| 0 <= j < m[i].len() implies s[i][j] == m[i][j] by {
            if i < j {
                assert(m[j][i] == m[i][j]);
                assert(avg_s(m[i][j], m[i][j]) == m[i][j]);
            } else if j < i {
                assert(m[j].len() == m.len());
                assert(m[j][i] == m[i][j]);
                assert(avg_s(m[i][j], m[i][j]) == m[i][j]);
            }
        }
        assert(s[i] =~= m[i]);
    }
    assert(s =~= m);
}

/// Applying symmetrization twice yields what applying it once yields, under
/// the same halving premise as `lemma_symmetrized_fixed_on_symmetric`: the
/// first application makes the matrix exactly symmetric, and a second pass
/// then averages each entry with itself.
pub proof fn lemma_symmetrized_idempotent<S: Scalar>(m: Seq<Seq<S>>)
    requires
        is_square(m),
        forall|a: S| #[trigger] avg_s(a, a) == a,
    ensures
        symmetrized(symmetrized(m)) == symmetrized(m),
{
    lemma_symmetrized_is_symmetric(m);
    lemma_symmetrized_fixed_on_symmetric(symmetrized(m));
}

/// Symmetrization leaves every entry equal to its mirror.
pub proof fn lemma_symmetrized_is_symmetric<S: Scalar>(m: Seq<Seq<S>>)
    requires
        is_square(m),
    ensures
        is_symmetric(symmetrized(m)),
{
    let s = symmetrized(m);
    assert forall|i: int| 0 <= i < s.len() implies (#[trigger] s[i]).len() == s.len() by {
        assert(m[i].len() == m.len());
    }
    assert forall|i: int, j: int|
        0 <= i < s.len() && 0 <= j < s.len() implies #[trigger] s[i][j] == s[j][i] by {
        assert(m[i].len() == m.len());
        assert(m[j].len() == m.len());
    }
}

} // verus!
