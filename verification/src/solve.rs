//! The solve and inverse facade: `solve(A, rhs)` and `inv(A)` for a
//! general square matrix, dispatching to the LU decomposition.
//!
//! The contracts pin the result to the coefficient matrix itself: success
//! comes exactly when the eliminated matrix has no pivot that counts as
//! zero ([`crate::lu::lu_nonsingular`]), and the solution is the
//! permute-forward-backward solve through the factor triple of the input
//! ([`crate::lu::lu_of`]), whose visible entries the input determines.
//! A numerically singular system therefore surfaces as the absent
//! result, never as a panic.  Callers needing the speed of a symmetric
//! positive definite solve use the Cholesky decomposition directly.

use vstd::prelude::*;
use crate::abstr::{Field, Identity, Real};
use crate::lu::{lu_nonsingular, lu_of, lu_solve_seq, lu_state, LUDec};
use crate::matrix::{dot, Matrix};
use crate::vector::Vector;

verus! {

/// The component sequence of column `j` of the identity matrix of size
/// `size`.
pub open spec fn unit_seq<T: Identity>(size: int, j: int) -> Seq<T> {
    Seq::new(size as nat, |i: int| if i == j { T::one_spec() } else { T::zero_spec() })
}

/// `g` is the Gram matrix of `a`'s columns: entry `(i, j)` is the inner
/// product of columns `i` and `j`.
pub open spec fn gram_of<T: Field>(a: Matrix<T>, g: Matrix<T>) -> bool {
    &&& g.wf()
    &&& g.rows() == a.cols()
    &&& g.cols() == a.cols()
    &&& forall|i: int, j: int|
        0 <= i < a.cols() && 0 <= j < a.cols() ==> g.ent(i, j) == dot(a.col(i), a.col(j))
}

/// Solving a linear system `A * x == rhs` against a right-hand side of
/// shape `R`.
pub trait Solve<R> {
    /// The shapes fit.
    spec fn solvable(&self, rhs: R) -> bool;

    /// When a solution is owed: success comes exactly on these inputs.
    spec fn solves_iff(&self, rhs: R) -> bool;

    /// What the returned solution satisfies.
    spec fn solution_ok(&self, rhs: R, out: R) -> bool;

    /// Solves `A * x == rhs`.
    fn solve(&self, rhs: &R) -> (r: Option<R>)
        requires
            self.solvable(*rhs),
        ensures
            r.is_some() == self.solves_iff(*rhs),
            r matches Some(x) ==> self.solution_ok(*rhs, x),
    ;
}

/// The inverse of a square matrix.
pub trait Inverse<T> {
    /// The shape admits an inverse.
    spec fn invertible_shape(&self) -> bool;

    /// When an inverse is owed: success comes exactly on these inputs.
    spec fn inverts_iff(&self) -> bool;

    /// What the returned inverse satisfies.
    spec fn inverse_ok(&self, out: Matrix<T>) -> bool;

    /// The inverse matrix.
    fn inv(&self) -> (r: Option<Matrix<T>>)
        requires
            self.invertible_shape(),
        ensures
            r.is_some() == self.inverts_iff(),
            r matches Some(x) ==> self.inverse_ok(x),
    ;
}

/// Scans the diagonal of the upper factor for an entry that counts as
/// zero: the numerically singular case.
fn diag_has_zero<T: Real>(a: &Matrix<T>, dec: &LUDec<T>) -> (r: bool)
    requires
        a.wf(),
        a.m == a.n,
        lu_of(*a, *dec),
    ensures
        r == !lu_nonsingular(*a),
{
    let n = a.nrow();
    let mut k: usize = 0;
    while k < n
        invariant
            k <= n,
            n == a.m,
            a.wf(),
            a.m == a.n,
            lu_of(*a, *dec),
            forall|k2: int|
                0 <= k2 < k ==> !(#[trigger] lu_state(*a, a.rows(), k2, k2)).eq_zero_spec(),
        decreases n - k,
    {
        let d = dec.u.get(k, k);
        if d.eq_zero() {
            return true;
        }
        k = k + 1;
    }
    false
}

impl<T: Real> Matrix<T> {
    /// LU-backed solve for a single right-hand-side column.  `Some`
    /// exactly when no pivot of the elimination counts as zero; the
    /// solution is then the solve through the input's own factor triple.
    pub fn solve_vector_r(&self, y: &Vector<T>) -> (r: Option<Vector<T>>)
        requires
            self.wf(),
            self.m == self.n,
            y.wf(),
            y.is_column(),
            y.data.m == self.m,
        ensures
            r.is_some() == lu_nonsingular(*self),
            r matches Some(x) ==> {
                &&& x.wf()
                &&& x.is_column()
                &&& x.data.m == self.m
                &&& exists|d: LUDec<T>|
                    lu_of(*self, d) && x.vals() == lu_solve_seq(d, y.vals())
            },
    {
        let dec = self.dec_lu();
        if diag_has_zero(self, &dec) {
            return None;
        }
        match dec.solve(y) {
            Ok(x) => {
                proof {
                    assert(lu_of(*self, dec) && x.vals() == lu_solve_seq(dec, y.vals()));
                }
                Some(x)
            },
            Err(_) => None,
        }
    }

    /// LU-backed solve for a batch of right-hand-side columns; success
    /// and pinning mirror the single-column solve, column by column.
    pub fn solve_matrix_r(&self, y: &Matrix<T>) -> (r: Option<Matrix<T>>)
        requires
            self.wf(),
            self.m == self.n,
            y.wf(),
            y.m == self.m,
            self.m * y.n <= usize::MAX,
        ensures
            r.is_some() == lu_nonsingular(*self),
            r matches Some(x) ==> {
                &&& x.wf()
                &&& x.m == y.m
                &&& x.n == y.n
                &&& exists|d: LUDec<T>|
                    lu_of(*self, d) && forall|j: int|
                        0 <= j < y.cols() ==> x.col(j) == lu_solve_seq(d, #[trigger] y.col(j))
            },
    {
        let dec = self.dec_lu();
        if diag_has_zero(self, &dec) {
            return None;
        }
        match dec.solve_matrix(y) {
            Ok(x) => {
                proof {
                    assert(lu_of(*self, dec) && forall|j: int|
                        0 <= j < y.cols() ==> x.col(j) == lu_solve_seq(dec, #[trigger] y.col(j)));
                }
                Some(x)
            },
            Err(_) => None,
        }
    }

    /// The left pseudoinverse `(A^T A)^{-1} A^T` of a matrix with at least
    /// as many rows as columns, computed through the LU solve of the
    /// normal equations: column `j` of the result is the solve of the
    /// columns' Gram matrix against row `j`.  The solve is total: a
    /// rank-deficient input shows up in the quotients, not as a failure.
    pub fn pinv(&self) -> (r: Matrix<T>)
        requires
            self.wf(),
            self.m >= self.n,
        ensures
            r.wf(),
            r.m == self.n,
            r.n == self.m,
            exists|g: Matrix<T>, d: LUDec<T>|
                {
                    &&& gram_of(*self, g)
                    &&& lu_of(g, d)
                    &&& forall|j: int|
                        0 <= j < self.rows() ==> r.col(j) == lu_solve_seq(d, #[trigger] self.row(j))
                },
    {
        let at = self.transpose();
        proof {
            assert(self.cols() * self.rows() <= usize::MAX && self.cols() * self.cols()
                <= usize::MAX) by (nonlinear_arith)
                requires
                    self.data.len() == self.rows() * self.cols(),
                    self.cols() <= self.rows(),
            ;
        }
        let ata = at.mul(self);
        proof {
            assert(gram_of(*self, ata)) by {
                assert forall|i: int, j: int| 0 <= i < self.cols() && 0 <= j < self.cols()
                    implies ata.ent(i, j) == dot(self.col(i), self.col(j)) by {
                    assert(at.row(i) =~= self.col(i));
                }
            }
        }
        let dec = ata.dec_lu();
        match dec.solve_matrix(&at) {
            Ok(x) => {
                proof {
                    assert forall|j: int| 0 <= j < self.rows()
                        implies x.col(j) == lu_solve_seq(dec, #[trigger] self.row(j)) by {
                        assert(at.col(j) =~= self.row(j));
                    }
                }
                x
            },
            Err(_) => at,
        }
    }
}

impl<T: Real> Solve<Vector<T>> for Matrix<T> {
    open spec fn solvable(&self, rhs: Vector<T>) -> bool {
        self.wf() && self.m == self.n && rhs.wf() && rhs.is_column() && rhs.data.m == self.m
    }

    open spec fn solves_iff(&self, rhs: Vector<T>) -> bool {
        lu_nonsingular(*self)
    }

    open spec fn solution_ok(&self, rhs: Vector<T>, out: Vector<T>) -> bool {
        &&& out.wf()
        &&& out.is_column()
        &&& out.data.m == self.m
        &&& exists|d: LUDec<T>| lu_of(*self, d) && out.vals() == lu_solve_seq(d, rhs.vals())
    }

    fn solve(&self, rhs: &Vector<T>) -> (r: Option<Vector<T>>) {
        self.solve_vector_r(rhs)
    }
}

impl<T: Real> Solve<Matrix<T>> for Matrix<T> {
    open spec fn solvable(&self, rhs: Matrix<T>) -> bool {
        self.wf() && self.m == self.n && rhs.wf() && rhs.m == self.m && self.m * rhs.n
            <= usize::MAX
    }

    open spec fn solves_iff(&self, rhs: Matrix<T>) -> bool {
        lu_nonsingular(*self)
    }

    open spec fn solution_ok(&self, rhs: Matrix<T>, out: Matrix<T>) -> bool {
        &&& out.wf()
        &&& out.m == rhs.m
        &&& out.n == rhs.n
        &&& exists|d: LUDec<T>|
            lu_of(*self, d) && forall|j: int|
                0 <= j < rhs.cols() ==> out.col(j) == lu_solve_seq(d, #[trigger] rhs.col(j))
    }

    fn solve(&self, rhs: &Matrix<T>) -> (r: Option<Matrix<T>>) {
        self.solve_matrix_r(rhs)
    }
}

impl<T: Real> Inverse<T> for Matrix<T> {
    open spec fn invertible_shape(&self) -> bool {
        self.wf() && self.m == self.n
    }

    open spec fn inverts_iff(&self) -> bool {
        lu_nonsingular(*self)
    }

    open spec fn inverse_ok(&self, out: Matrix<T>) -> bool {
        &&& out.wf()
        &&& out.m == self.m
        &&& out.n == self.m
        &&& exists|d: LUDec<T>|
            lu_of(*self, d) && forall|j: int|
                0 <= j < self.rows() ==> out.col(j) == lu_solve_seq(
                    d,
                    #[trigger] unit_seq(self.rows(), j),
                )
    }

    fn inv(&self) -> (r: Option<Matrix<T>>) {
        let dec = self.dec_lu();
        if diag_has_zero(self, &dec) {
            return None;
        }
        match dec.inv() {
            Ok(x) => {
                proof {
                    assert(lu_of(*self, dec) && forall|j: int|
                        0 <= j < self.rows() ==> x.col(j) == lu_solve_seq(
                            dec,
                            #[trigger] unit_seq(self.rows(), j),
                        ));
                }
                Some(x)
            },
            Err(_) => None,
        }
    }
}

} // verus!
