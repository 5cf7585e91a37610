//! LU decomposition with partial pivoting, and the solves built on it.
//!
//! `dec_lu` factors a square matrix `A` as `P * A = L * U` with `L` unit
//! lower triangular, `U` upper triangular and `P` a permutation matrix.
//! The factors are pinned exactly: the spec recurrence [`lu_state`]
//! replays the elimination — pivot search by largest absolute value, row
//! swap, factor and row update — over the abstract scalar operations,
//! storing the factors below the diagonal of one combined array exactly
//! as the working loop does, and the contract equates every entry of the
//! results with it.  A pivot column whose largest absolute value counts
//! as zero (a rank-deficient input) is recorded as already eliminated —
//! its subdiagonal is set to zero and no factors are written — so the
//! decomposition is total and never panics; singularity then surfaces, if
//! at all, in the quotients of a later substitution.

use vstd::prelude::*;
use crate::abstr::{Field, Identity, Lattice, Real, Scalar};
use crate::matrix::{
    is_perm_matrix, is_perm_seq, lower_unitriangular, matvec_seq, perm_matrix_of,
    upper_triangular, Matrix,
};
use crate::substitute::{backward_seq, forward_seq, Substitute};
use crate::vector::Vector;

verus! {

/// Where row `i` lands when the rows `a` and `b` are exchanged.
pub open spec fn lu_swap_idx(i: int, a: int, b: int) -> int {
    if i == a {
        b
    } else if i == b {
        a
    } else {
        i
    }
}

/// The row holding the largest absolute value in column `jc` of the
/// elimination state before step `jc`, among the rows `jc .. k`, as the
/// running-maximum scan finds it.
pub open spec fn lu_pivot_to<T: Real>(a: Matrix<T>, jc: int, k: int) -> int
    decreases jc, 1int, k,
{
    if jc < 0 || k <= jc + 1 {
        jc
    } else {
        let best = lu_pivot_to(a, jc, k - 1);
        if lu_state(a, jc, best, jc).abs_spec().lt_spec(
            lu_state(a, jc, k - 1, jc).abs_spec(),
        ) {
            k - 1
        } else {
            best
        }
    }
}

/// The pivot row of elimination step `jc`.
pub open spec fn lu_pivot<T: Real>(a: Matrix<T>, jc: int) -> int
    decreases jc, 2int, 0int,
{
    lu_pivot_to(a, jc, a.rows())
}

/// Entry `(i, j)` of the combined elimination state after `k` steps of
/// pivoted Gaussian elimination on `a`: the upper triangle carries the
/// partially reduced matrix, the strict lower triangle of the processed
/// columns carries the elimination factors.  Each step swaps the pivot
/// row into place, divides the subdiagonal of the active column by the
/// pivot to obtain the factors, and subtracts the scaled pivot row; a
/// pivot that counts as zero leaves the rows unchanged and clears the
/// active column instead.
pub open spec fn lu_state<T: Real>(a: Matrix<T>, k: int, i: int, j: int) -> T
    decreases k, 0int, 0int,
{
    if k <= 0 {
        a.ent(i, j)
    } else {
        let jc = k - 1;
        let p = lu_pivot(a, jc);
        let swi = lu_swap_idx(i, jc, p);
        let piv = lu_state(a, jc, p, jc);
        if i <= jc {
            lu_state(a, jc, swi, j)
        } else if piv.eq_zero_spec() {
            if j == jc {
                T::zero_spec()
            } else {
                lu_state(a, jc, swi, j)
            }
        } else if j == jc {
            lu_state(a, jc, swi, jc).div_spec(piv)
        } else if j > jc {
            lu_state(a, jc, swi, j).sub_spec(
                lu_state(a, jc, swi, jc).div_spec(piv).mul_spec(lu_state(a, jc, p, j)),
            )
        } else {
            lu_state(a, jc, swi, j)
        }
    }
}

/// The permutation after `k` elimination steps: the identity with the
/// pivot exchanges of the first `k` steps applied.
pub open spec fn lu_perm<T: Real>(a: Matrix<T>, k: int) -> Seq<int>
    decreases k,
{
    if k <= 0 {
        Seq::new(a.rows() as nat, |i: int| i)
    } else {
        let jc = k - 1;
        let prev = lu_perm(a, k - 1);
        let p = lu_pivot(a, jc);
        prev.update(jc, prev[p]).update(p, prev[jc])
    }
}

/// The pivot of step `jc` lies among the rows `jc` and below.
pub proof fn lemma_lu_pivot_to_range<T: Real>(a: Matrix<T>, jc: int, k: int)
    requires
        0 <= jc < k,
    ensures
        jc <= lu_pivot_to(a, jc, k) < k,
    decreases k,
{
    if k > jc + 1 {
        lemma_lu_pivot_to_range(a, jc, k - 1);
    }
}

/// The result of an LU decomposition: `p * a == l * u` up to rounding.
#[derive(Clone, Debug)]
pub struct LUDec<T> {
    pub l: Matrix<T>,
    pub u: Matrix<T>,
    pub p: Matrix<T>,
}

/// The three factors are well-formed square matrices of the same size with
/// the shapes the decomposition promises.
pub open spec fn lu_shape_ok<T: Identity>(size: int, d: LUDec<T>) -> bool {
    &&& d.l.wf() && d.l.rows() == size && d.l.cols() == size && lower_unitriangular(d.l)
    &&& d.u.wf() && d.u.rows() == size && d.u.cols() == size && upper_triangular(d.u)
    &&& d.p.wf() && d.p.rows() == size && d.p.cols() == size && is_perm_matrix(d.p)
}

/// `d` holds exactly the pivoted-elimination factors of `a`: the shapes of
/// [`lu_shape_ok`], with `U`'s upper triangle and `L`'s strict lower
/// triangle pinned entry for entry to [`lu_state`] and `P` the matrix of
/// [`lu_perm`].  All visible entries of such a triple are determined by
/// `a` alone.
pub open spec fn lu_of<T: Real>(a: Matrix<T>, d: LUDec<T>) -> bool {
    &&& lu_shape_ok(a.rows(), d)
    &&& forall|i: int, j: int|
        0 <= i <= j < a.rows() ==> d.u.ent(i, j) == lu_state(a, a.rows(), i, j)
    &&& forall|i: int, j: int|
        0 <= j < i < a.rows() ==> d.l.ent(i, j) == lu_state(a, a.rows(), i, j)
    &&& perm_matrix_of(d.p, lu_perm(a, a.rows()))
}

/// The eliminated matrix has no diagonal entry that counts as zero: the
/// numerically nonsingular case, in which the triangular solves divide by
/// nonzero pivots.
pub open spec fn lu_nonsingular<T: Real>(a: Matrix<T>) -> bool {
    forall|k: int|
        0 <= k < a.rows() ==> !(#[trigger] lu_state(a, a.rows(), k, k)).eq_zero_spec()
}

/// What an LU-based solve returns for the right-hand side `b`: permute,
/// forward-substitute through `l`, backward-substitute through `u`.
pub open spec fn lu_solve_seq<T: Real>(d: LUDec<T>, b: Seq<T>) -> Seq<T> {
    backward_seq(d.u, forward_seq(d.l, matvec_seq(d.p, b), d.l.rows()), d.u.rows())
}

impl<T: Copy> LUDec<T> {
    /// The unit lower triangular factor.
    pub fn l(self) -> (r: Matrix<T>)
        ensures
            r == self.l,
    {
        self.l
    }

    /// The upper triangular factor.
    pub fn u(self) -> (r: Matrix<T>)
        ensures
            r == self.u,
    {
        self.u
    }

    /// The permutation factor.
    pub fn p(self) -> (r: Matrix<T>)
        ensures
            r == self.p,
    {
        self.p
    }

    /// All three factors, `(l, u, p)`.
    pub fn lup(self) -> (r: (Matrix<T>, Matrix<T>, Matrix<T>))
        ensures
            r.0 == self.l,
            r.1 == self.u,
            r.2 == self.p,
    {
        (self.l, self.u, self.p)
    }
}

impl<T: Real> Matrix<T> {
    /// LU decomposition with partial pivoting.
    ///
    /// The factors satisfy the structural promises of [`lu_shape_ok`];
    /// beyond the shapes, every entry is pinned to the elimination
    /// recurrence: `U` is the upper triangle of [`lu_state`] after all
    /// steps, the strict lower triangle of `L` holds its stored factors,
    /// and `P` is the matrix of [`lu_perm`].  The numerical residual
    /// `P*A - L*U` is the business of the scalar type's rounding.
    pub fn dec_lu(&self) -> (r: LUDec<T>)
        requires
            self.wf(),
            self.m == self.n,
        ensures
            lu_of(*self, r),
    {
        let m = self.m;
        proof {
            assert(m * m <= usize::MAX) by (nonlinear_arith)
                requires
                    self.data.len() == m * m,
            ;
        }
        let mut u = self.duplicate();
        let mut l = Matrix::<T>::one(m);
        let mut p = Matrix::<T>::one(m);
        let ghost mut perm: Seq<int> = Seq::new(m as nat, |k: int| k);
        proof {
            assert(perm_matrix_of(p, perm));
            assert(perm =~= lu_perm(*self, 0));
        }
        let mut jc: usize = 0;
        while jc < m
            invariant
                jc <= m,
                self.wf(),
                self.m == m && self.n == m,
                u.wf() && u.m == m && u.n == m,
                l.wf() && l.m == m && l.n == m,
                p.wf() && p.m == m && p.n == m,
                perm == lu_perm(*self, jc as int),
                perm_matrix_of(p, perm),
                forall|i: int, j: int|
                    0 <= i < m && jc <= j < m ==> u.ent(i, j) == lu_state(*self, jc as int, i, j),
                forall|i: int, j: int|
                    0 <= i <= j < jc ==> u.ent(i, j) == lu_state(*self, jc as int, i, j),
                forall|i: int, j: int|
                    0 <= j < jc && j < i < m ==> u.ent(i, j) == T::zero_spec(),
                forall|i: int, j: int|
                    0 <= j < jc && j < i < m ==> l.ent(i, j) == lu_state(*self, jc as int, i, j),
                forall|i: int, j: int|
                    0 <= i < m && 0 <= j < m && i < j ==> l.ent(i, j) == T::zero_spec(),
                forall|i: int| 0 <= i < m ==> l.ent(i, i) == T::one_spec(),
                forall|i: int, j: int|
                    0 <= i < m && jc <= j < m && i > j ==> l.ent(i, j) == T::zero_spec(),
            decreases m - jc,
        {
            // Partial pivoting: the row with the largest absolute value in
            // the active column comes to the pivot position.
            let mut imax: usize = jc;
            let mut vmax = u.get(jc, jc).abs();
            let mut k: usize = jc + 1;
            while k < m
                invariant
                    jc < m,
                    jc <= imax < m,
                    jc < k <= m,
                    self.wf(),
                    self.m == m && self.n == m,
                    u.wf() && u.m == m && u.n == m,
                    forall|i: int, j: int|
                        0 <= i < m && jc <= j < m ==> u.ent(i, j) == lu_state(
                            *self,
                            jc as int,
                            i,
                            j,
                        ),
                    imax as int == lu_pivot_to(*self, jc as int, k as int),
                    vmax == lu_state(*self, jc as int, imax as int, jc as int).abs_spec(),
                decreases m - k,
            {
                let cand = u.get(k, jc).abs();
                if vmax.lt(cand) {
                    vmax = cand;
                    imax = k;
                }
                k = k + 1;
            }
            proof {
                assert(imax as int == lu_pivot(*self, jc as int));
            }
            let ghost pv: int = imax as int;
            if imax != jc {
                let ghost u0 = u;
                u.swap_rows(jc, imax);
                p.swap_rows(jc, imax);
                l.swap_rows_partial(jc, imax, jc);
                proof {
                    let permold = perm;
                    perm = permold.update(jc as int, permold[pv]).update(pv, permold[jc as int]);
                    assert(perm == lu_perm(*self, jc + 1));
                    assert(is_perm_seq(perm));
                    assert(perm_matrix_of(p, perm));
                    assert forall|i: int, j: int| 0 <= j < jc && j < i < m
                        implies u.ent(i, j) == T::zero_spec() by {
                        assert(u0.ent(pv, j) == T::zero_spec());
                        assert(u0.ent(jc as int, j) == T::zero_spec());
                    }
                }
            } else {
                proof {
                    let permold = perm;
                    perm = permold.update(jc as int, permold[pv]).update(pv, permold[jc as int]);
                    assert(perm =~= permold);
                    assert(perm == lu_perm(*self, jc + 1));
                }
            }
            // From here the working arrays hold the swapped state:
            // entry (i, j) of `u` (and the factor part of `l`) equals
            // the pre-step state at the swapped row index.
            proof {
                assert forall|i: int, j: int| 0 <= i < m && jc <= j < m
                    implies u.ent(i, j) == lu_state(
                        *self,
                        jc as int,
                        lu_swap_idx(i, jc as int, pv),
                        j,
                    ) by {}
                assert forall|i: int, j: int| 0 <= j < jc && j < i < m
                    implies l.ent(i, j) == lu_state(
                        *self,
                        jc as int,
                        lu_swap_idx(i, jc as int, pv),
                        j,
                    ) by {}
            }
            let piv = u.get(jc, jc);
            proof {
                assert(lu_swap_idx(jc as int, jc as int, pv) == pv);
                assert(piv == lu_state(*self, jc as int, pv, jc as int));
            }
            if !piv.eq_zero() {
                let mut i: usize = jc + 1;
                while i < m
                    invariant
                        jc < i <= m,
                        jc < m,
                        jc <= pv < m,
                        pv == lu_pivot(*self, jc as int),
                        self.wf(),
                        self.m == m && self.n == m,
                        u.wf() && u.m == m && u.n == m,
                        l.wf() && l.m == m && l.n == m,
                        piv == lu_state(*self, jc as int, pv, jc as int),
                        !piv.eq_zero_spec(),
                        // Rows at or above the pivot row, and rows not yet
                        // processed, hold the swapped pre-step state.
                        forall|i2: int, j2: int|
                            0 <= i2 < m && jc <= j2 < m && (i2 <= jc || i <= i2) ==> u.ent(i2, j2)
                                == lu_state(
                                *self,
                                jc as int,
                                lu_swap_idx(i2, jc as int, pv),
                                j2,
                            ),
                        // Processed rows hold the next state: factors in
                        // `l`, zeros below the diagonal of `u`.
                        forall|i2: int, j2: int|
                            jc < i2 < i && jc < j2 < m ==> u.ent(i2, j2) == lu_state(
                                *self,
                                jc + 1,
                                i2,
                                j2,
                            ),
                        forall|i2: int| jc < i2 < i ==> u.ent(i2, jc as int) == T::zero_spec(),
                        forall|i2: int|
                            jc < i2 < i ==> l.ent(i2, jc as int) == lu_state(
                                *self,
                                jc + 1,
                                i2,
                                jc as int,
                            ),
                        // The regions the step does not touch.
                        forall|i2: int, j2: int|
                            0 <= i2 <= j2 < jc ==> u.ent(i2, j2) == lu_state(
                                *self,
                                jc as int,
                                i2,
                                j2,
                            ),
                        forall|i2: int, j2: int|
                            0 <= j2 < jc && j2 < i2 < m ==> u.ent(i2, j2) == T::zero_spec(),
                        forall|i2: int, j2: int|
                            0 <= j2 < jc && j2 < i2 < m ==> l.ent(i2, j2) == lu_state(
                                *self,
                                jc as int,
                                lu_swap_idx(i2, jc as int, pv),
                                j2,
                            ),
                        forall|i2: int, j2: int|
                            0 <= i2 < m && 0 <= j2 < m && i2 < j2 ==> l.ent(i2, j2)
                                == T::zero_spec(),
                        forall|i2: int| 0 <= i2 < m ==> l.ent(i2, i2) == T::one_spec(),
                        forall|i2: int, j2: int|
                            0 <= i2 < m && jc < j2 < m && i2 > j2 ==> l.ent(i2, j2)
                                == T::zero_spec(),
                    decreases m - i,
                {
                    let f = u.get(i, jc).div(piv);
                    proof {
                        assert(f == lu_state(*self, jc + 1, i as int, jc as int));
                    }
                    l.set(i, jc, f);
                    let mut kk: usize = jc + 1;
                    while kk < m
                        invariant
                            jc < i < m,
                            jc < kk <= m,
                            jc <= pv < m,
                            pv == lu_pivot(*self, jc as int),
                            self.wf(),
                            self.m == m && self.n == m,
                            u.wf() && u.m == m && u.n == m,
                            piv == lu_state(*self, jc as int, pv, jc as int),
                            !piv.eq_zero_spec(),
                            f == lu_state(*self, jc + 1, i as int, jc as int),
                            forall|i2: int, j2: int|
                                0 <= i2 < m && jc <= j2 < m && (i2 <= jc || i < i2) ==> u.ent(
                                    i2,
                                    j2,
                                ) == lu_state(
                                    *self,
                                    jc as int,
                                    lu_swap_idx(i2, jc as int, pv),
                                    j2,
                                ),
                            forall|i2: int, j2: int|
                                jc < i2 < i && jc < j2 < m ==> u.ent(i2, j2) == lu_state(
                                    *self,
                                    jc + 1,
                                    i2,
                                    j2,
                                ),
                            forall|i2: int| jc < i2 < i ==> u.ent(i2, jc as int) == T::zero_spec(),
                            // The current row: updated up to `kk`, swapped
                            // state from `kk` on, the active column still
                            // untouched.
                            forall|j2: int|
                                jc < j2 < kk ==> u.ent(i as int, j2) == lu_state(
                                    *self,
                                    jc + 1,
                                    i as int,
                                    j2,
                                ),
                            forall|j2: int|
                                kk <= j2 < m ==> u.ent(i as int, j2) == lu_state(
                                    *self,
                                    jc as int,
                                    lu_swap_idx(i as int, jc as int, pv),
                                    j2,
                                ),
                            u.ent(i as int, jc as int) == lu_state(
                                *self,
                                jc as int,
                                lu_swap_idx(i as int, jc as int, pv),
                                jc as int,
                            ),
                            forall|i2: int, j2: int|
                                0 <= i2 <= j2 < jc ==> u.ent(i2, j2) == lu_state(
                                    *self,
                                    jc as int,
                                    i2,
                                    j2,
                                ),
                            forall|i2: int, j2: int|
                                0 <= j2 < jc && j2 < i2 < m ==> u.ent(i2, j2) == T::zero_spec(),
                        decreases m - kk,
                    {
                        let delta = f.mul(u.get(jc, kk));
                        let newv = u.get(i, kk).sub(delta);
                        proof {
                            assert(lu_swap_idx(jc as int, jc as int, pv) == pv);
                            assert(newv == lu_state(*self, jc + 1, i as int, kk as int));
                        }
                        u.set(i, kk, newv);
                        kk = kk + 1;
                    }
                    u.set(i, jc, T::zero());
                    i = i + 1;
                }
                proof {
                    assert forall|i2: int, j2: int| 0 <= i2 < m && jc + 1 <= j2 < m
                        implies u.ent(i2, j2) == lu_state(*self, jc + 1, i2, j2) by {}
                    assert forall|i2: int, j2: int| 0 <= i2 <= j2 < jc + 1
                        implies u.ent(i2, j2) == lu_state(*self, jc + 1, i2, j2) by {}
                    assert forall|i2: int, j2: int| 0 <= j2 < jc + 1 && j2 < i2 < m
                        implies l.ent(i2, j2) == lu_state(*self, jc + 1, i2, j2) by {}
                }
            } else {
                // Zero pivot column: record it as already eliminated.
                let mut i: usize = jc + 1;
                while i < m
                    invariant
                        jc < i <= m,
                        jc < m,
                        jc <= pv < m,
                        pv == lu_pivot(*self, jc as int),
                        self.wf(),
                        self.m == m && self.n == m,
                        u.wf() && u.m == m && u.n == m,
                        l.wf() && l.m == m && l.n == m,
                        piv == lu_state(*self, jc as int, pv, jc as int),
                        piv.eq_zero_spec(),
                        forall|i2: int, j2: int|
                            0 <= i2 < m && jc <= j2 < m && !(i2 > jc && j2 == jc && i2 < i)
                                ==> u.ent(i2, j2) == lu_state(
                                *self,
                                jc as int,
                                lu_swap_idx(i2, jc as int, pv),
                                j2,
                            ),
                        forall|i2: int| jc < i2 < i ==> u.ent(i2, jc as int) == T::zero_spec(),
                        forall|i2: int, j2: int|
                            0 <= i2 <= j2 < jc ==> u.ent(i2, j2) == lu_state(
                                *self,
                                jc as int,
                                i2,
                                j2,
                            ),
                        forall|i2: int, j2: int|
                            0 <= j2 < jc && j2 < i2 < m ==> u.ent(i2, j2) == T::zero_spec(),
                        forall|i2: int, j2: int|
                            0 <= j2 < jc && j2 < i2 < m ==> l.ent(i2, j2) == lu_state(
                                *self,
                                jc as int,
                                lu_swap_idx(i2, jc as int, pv),
                                j2,
                            ),
                        forall|i2: int, j2: int|
                            0 <= i2 < m && 0 <= j2 < m && i2 < j2 ==> l.ent(i2, j2)
                                == T::zero_spec(),
                        forall|i2: int| 0 <= i2 < m ==> l.ent(i2, i2) == T::one_spec(),
                        forall|i2: int, j2: int|
                            0 <= i2 < m && jc <= j2 < m && i2 > j2 ==> l.ent(i2, j2)
                                == T::zero_spec(),
                    decreases m - i,
                {
                    u.set(i, jc, T::zero());
                    i = i + 1;
                }
                proof {
                    assert forall|i2: int, j2: int| 0 <= i2 < m && jc + 1 <= j2 < m
                        implies u.ent(i2, j2) == lu_state(*self, jc + 1, i2, j2) by {}
                    assert forall|i2: int, j2: int| 0 <= i2 <= j2 < jc + 1
                        implies u.ent(i2, j2) == lu_state(*self, jc + 1, i2, j2) by {}
                    assert forall|i2: int, j2: int| 0 <= j2 < jc + 1 && j2 < i2 < m
                        implies l.ent(i2, j2) == lu_state(*self, jc + 1, i2, j2) by {}
                }
            }
            jc = jc + 1;
        }
        let r = LUDec { l, u, p };
        proof {
            assert(lower_unitriangular(r.l));
            assert(upper_triangular(r.u));
            assert(is_perm_matrix(r.p));
        }
        r
    }
}

impl<T: Real> LUDec<T> {
    /// The factors are well formed, square and of one size.
    pub open spec fn wf(&self) -> bool {
        &&& self.l.wf() && self.l.m == self.l.n
        &&& self.u.wf() && self.u.m == self.l.m && self.u.n == self.l.m
        &&& self.p.wf() && self.p.m == self.l.m && self.p.n == self.l.m
    }

    /// Solves `A x = b` through the factors: permutes `b`, then forward-
    /// and backward-substitutes.  Always returns `Ok`; an exactly singular
    /// `U` shows up as non-finite quotients in the substitution, not as an
    /// error.
    pub fn solve(&self, rhs: &Vector<T>) -> (r: Result<Vector<T>, ()>)
        requires
            self.wf(),
            rhs.wf(),
            rhs.is_column(),
            rhs.data.m == self.l.m,
        ensures
            r.is_ok(),
            r matches Ok(x) ==> {
                &&& x.wf()
                &&& x.is_column()
                &&& x.data.m == self.l.m
                &&& x.vals() == lu_solve_seq(*self, rhs.vals())
            },
    {
        let b_hat = self.p.mul_vec(rhs);
        proof {
            assert(b_hat.vals() =~= matvec_seq(self.p, rhs.vals()));
        }
        let y = self.l.substitute_forward(b_hat);
        let x = self.u.substitute_backward(y);
        Ok(x)
    }

    /// Solves `A X = B` column by column through the factors; always `Ok`.
    pub fn solve_matrix(&self, rhs: &Matrix<T>) -> (r: Result<Matrix<T>, ()>)
        requires
            self.wf(),
            rhs.wf(),
            rhs.m == self.l.m,
            self.l.m * rhs.n <= usize::MAX,
        ensures
            r.is_ok(),
            r matches Ok(x) ==> {
                &&& x.wf()
                &&& x.m == rhs.m
                &&& x.n == rhs.n
                &&& forall|j: int|
                    0 <= j < rhs.cols() ==> x.col(j) == lu_solve_seq(*self, rhs.col(j))
            },
    {
        let b_hat = self.p.mul(rhs);
        proof {
            assert forall|j: int| 0 <= j < rhs.cols()
                implies b_hat.col(j) == matvec_seq(self.p, rhs.col(j)) by {
                assert(b_hat.col(j) =~= matvec_seq(self.p, rhs.col(j)));
            }
        }
        let y = self.l.substitute_forward(b_hat);
        let x = self.u.substitute_backward(y);
        Ok(x)
    }

    /// The inverse, computed by solving against the identity matrix; fails
    /// exactly where the solve does, which is never.
    pub fn inv(&self) -> (r: Result<Matrix<T>, ()>)
        requires
            self.wf(),
        ensures
            r.is_ok(),
            r matches Ok(x) ==> {
                &&& x.wf()
                &&& x.m == self.l.m
                &&& x.n == self.l.m
                &&& forall|j: int|
                    0 <= j < self.l.rows() ==> x.col(j) == lu_solve_seq(
                        *self,
                        #[trigger] crate::solve::unit_seq(self.l.rows(), j),
                    )
            },
    {
        let m = self.p.nrow();
        proof {
            assert(m * m <= usize::MAX) by (nonlinear_arith)
                requires
                    self.p.data.len() == m * m,
            ;
        }
        let b = Matrix::<T>::one(m);
        let x = self.solve_matrix(&b)?;
        proof {
            assert forall|j: int| 0 <= j < self.l.rows()
                implies x.col(j) == lu_solve_seq(*self, #[trigger] crate::solve::unit_seq(self.l.rows(), j)) by {
                assert(b.col(j) =~= crate::solve::unit_seq::<T>(self.l.rows(), j));
            }
        }
        Ok(x)
    }
}

/// The matrix-vector product depends only on the left factor's visible
/// entries.
proof fn lemma_matvec_congruent<T: Real>(p1: Matrix<T>, p2: Matrix<T>, b: Seq<T>)
    requires
        p1.rows() == p2.rows(),
        p1.cols() == p2.cols(),
        forall|i: int, j: int|
            0 <= i < p1.rows() && 0 <= j < p1.cols() ==> p1.ent(i, j) == p2.ent(i, j),
    ensures
        matvec_seq(p1, b) == matvec_seq(p2, b),
{
    assert forall|i: int| 0 <= i < p1.rows() implies p1.row(i) == p2.row(i) by {
        assert(p1.row(i) =~= p2.row(i));
    }
    assert(matvec_seq(p1, b) =~= matvec_seq(p2, b));
}

/// Forward substitution depends only on the triangular factor's visible
/// entries.
proof fn lemma_forward_congruent<T: Real>(l1: Matrix<T>, l2: Matrix<T>, b: Seq<T>, k: int)
    requires
        l1.rows() == l2.rows(),
        l1.cols() == l2.cols(),
        l1.cols() == l1.rows(),
        k <= l1.rows(),
        forall|i: int, j: int|
            0 <= i < l1.rows() && 0 <= j < l1.cols() ==> l1.ent(i, j) == l2.ent(i, j),
    ensures
        forward_seq(l1, b, k) == forward_seq(l2, b, k),
    decreases k,
{
    if k > 0 {
        lemma_forward_congruent(l1, l2, b, k - 1);
        assert(l1.row(k - 1) =~= l2.row(k - 1));
        assert(l1.ent(k - 1, k - 1) == l2.ent(k - 1, k - 1));
        assert(forward_seq(l1, b, k) =~= forward_seq(l2, b, k));
    } else {
        assert(forward_seq(l1, b, k) =~= forward_seq(l2, b, k));
    }
}

/// Backward substitution depends only on the triangular factor's visible
/// entries.
proof fn lemma_backward_congruent<T: Real>(u1: Matrix<T>, u2: Matrix<T>, b: Seq<T>, k: int)
    requires
        u1.rows() == u2.rows(),
        u1.cols() == u2.cols(),
        u1.cols() == u1.rows(),
        k <= u1.rows(),
        forall|i: int, j: int|
            0 <= i < u1.rows() && 0 <= j < u1.cols() ==> u1.ent(i, j) == u2.ent(i, j),
    ensures
        backward_seq(u1, b, k) == backward_seq(u2, b, k),
    decreases k,
{
    if k > 0 {
        lemma_backward_congruent(u1, u2, b, k - 1);
        assert(u1.row(u1.rows() - k) =~= u2.row(u2.rows() - k));
        assert(u1.ent(u1.rows() - k, u1.rows() - k) == u2.ent(u2.rows() - k, u2.rows() - k));
        assert(backward_seq(u1, b, k) =~= backward_seq(u2, b, k));
    } else {
        assert(backward_seq(u1, b, k) =~= backward_seq(u2, b, k));
    }
}

/// Determinism of the LU solve: any two factor triples of one matrix give
/// one and the same solution for every right-hand side, so two solves of
/// bitwise-identical inputs agree, and a batch solve's column agrees with
/// the single-column solve.
pub proof fn lemma_lu_solve_unique<T: Real>(a: Matrix<T>, d1: LUDec<T>, d2: LUDec<T>, b: Seq<T>)
    requires
        lu_of(a, d1),
        lu_of(a, d2),
    ensures
        lu_solve_seq(d1, b) == lu_solve_seq(d2, b),
{
    let n = a.rows();
    assert forall|i: int, j: int| 0 <= i < n && 0 <= j < n
        implies d1.p.ent(i, j) == d2.p.ent(i, j) by {}
    assert forall|i: int, j: int| 0 <= i < n && 0 <= j < n
        implies d1.l.ent(i, j) == d2.l.ent(i, j) by {}
    assert forall|i: int, j: int| 0 <= i < n && 0 <= j < n
        implies d1.u.ent(i, j) == d2.u.ent(i, j) by {}
    lemma_matvec_congruent(d1.p, d2.p, b);
    lemma_forward_congruent(d1.l, d2.l, matvec_seq(d1.p, b), n);
    lemma_backward_congruent(
        d1.u,
        d2.u,
        forward_seq(d1.l, matvec_seq(d1.p, b), n),
        n,
    );
}

} // verus!
