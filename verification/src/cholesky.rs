//! Cholesky decomposition of a symmetric positive definite matrix.
//!
//! The factor is pinned exactly: entry `(i, j)` of `L` equals the value of
//! the classical row-by-row recurrence [`chol_ent`] over the abstract
//! scalar operations, and the decomposition returns `Some` precisely when
//! every diagonal term compares strictly above zero before its square root
//! is taken.  A non-positive (or unordered) term means the input is not
//! positive definite; the decomposition then reports `None` instead of
//! panicking.

use vstd::prelude::*;
use crate::abstr::{Field, Identity, Lattice, Real};
use crate::matrix::Matrix;

verus! {

/// The partial sum `sum_{t<k} L_{i,t} * L_{j,t}` of the Cholesky
/// recurrence, for `k <= j`.
pub open spec fn chol_sum<T: Real>(a: Matrix<T>, i: int, j: int, k: int) -> T
    decreases j, 0int, i, k,
{
    if k <= 0 || k > j {
        T::zero_spec()
    } else {
        chol_sum(a, i, j, k - 1).add_spec(chol_ent(a, i, k - 1).mul_spec(chol_ent(a, j, k - 1)))
    }
}

/// Entry `(i, j)` of the Cholesky factor of `a`, for `i >= j`:
/// the diagonal is `sqrt(a_jj - sum)`, the subdiagonal entries divide by
/// the already-computed diagonal.
pub open spec fn chol_ent<T: Real>(a: Matrix<T>, i: int, j: int) -> T
    decreases j, 1int, i, 0int,
{
    if j < 0 || i < j {
        T::zero_spec()
    } else if i == j {
        a.ent(j, j).sub_spec(chol_sum(a, j, j, j)).sqrt_spec()
    } else {
        a.ent(i, j).sub_spec(chol_sum(a, i, j, j)).div_spec(chol_ent(a, j, j))
    }
}

/// The diagonal term of row `j` before its square root is taken.
pub open spec fn chol_diag_term<T: Real>(a: Matrix<T>, j: int) -> T {
    a.ent(j, j).sub_spec(chol_sum(a, j, j, j))
}

/// Every diagonal term of the first `upto` rows compares strictly above
/// zero: the decomposition of those rows goes through.
pub open spec fn chol_positive<T: Real>(a: Matrix<T>, upto: int) -> bool {
    forall|j: int| 0 <= j < upto ==> T::zero_spec().lt_spec(#[trigger] chol_diag_term(a, j))
}

/// The result of a Cholesky decomposition: `l * l^T == a` up to rounding.
#[derive(Clone, Debug)]
pub struct CholeskyDec<T> {
    pub l: Matrix<T>,
}

impl<T: Copy> CholeskyDec<T> {
    /// Bundles a lower triangular factor.
    pub fn new(m: Matrix<T>) -> (r: CholeskyDec<T>)
        ensures
            r.l == m,
    {
        CholeskyDec { l: m }
    }

    /// The lower triangular factor.
    pub fn l(self) -> (r: Matrix<T>)
        ensures
            r == self.l,
    {
        self.l
    }
}

impl<T: Real> Matrix<T> {
    /// Cholesky decomposition of a symmetric positive definite matrix.
    ///
    /// Returns `Some` exactly when every diagonal term of the recurrence
    /// compares strictly above zero; the factor is then lower triangular
    /// and every entry on or below the diagonal equals [`chol_ent`].
    pub fn dec_cholesky(&self) -> (r: Option<CholeskyDec<T>>)
        requires
            self.wf(),
            self.m == self.n,
        ensures
            r.is_some() <==> chol_positive(*self, self.rows()),
            r matches Some(d) ==> {
                &&& d.l.wf()
                &&& d.l.m == self.m
                &&& d.l.n == self.m
                &&& forall|i: int, j: int|
                    0 <= i < self.rows() && 0 <= j < self.rows() && i < j
                        ==> d.l.ent(i, j) == T::zero_spec()
                &&& forall|i: int, j: int|
                    0 <= j <= i < self.rows() ==> d.l.ent(i, j) == chol_ent(*self, i, j)
            },
    {
        let n = self.m;
        proof {
            assert(n * n <= usize::MAX) by (nonlinear_arith)
                requires
                    self.data.len() == n * n,
            ;
        }
        let mut l = Matrix::<T>::zero(n, n);
        let mut i: usize = 0;
        while i < n
            invariant
                i <= n,
                n == self.m,
                self.wf(),
                self.m == self.n,
                l.wf() && l.m == n && l.n == n,
                chol_positive(*self, i as int),
                forall|i2: int, j2: int|
                    0 <= i2 < n && 0 <= j2 < n && i2 < j2 ==> l.ent(i2, j2) == T::zero_spec(),
                forall|i2: int, j2: int|
                    0 <= j2 <= i2 && i2 < i ==> l.ent(i2, j2) == chol_ent(*self, i2, j2),
            decreases n - i,
        {
            let mut j: usize = 0;
            while j <= i
                invariant
                    j <= i + 1,
                    i < n,
                    n == self.m,
                    self.wf(),
                    self.m == self.n,
                    l.wf() && l.m == n && l.n == n,
                    chol_positive(*self, i as int),
                    forall|i2: int, j2: int|
                        0 <= i2 < n && 0 <= j2 < n && i2 < j2 ==> l.ent(i2, j2) == T::zero_spec(),
                    forall|i2: int, j2: int|
                        0 <= j2 <= i2 && i2 < i ==> l.ent(i2, j2) == chol_ent(*self, i2, j2),
                    forall|j2: int| 0 <= j2 < j ==> l.ent(i as int, j2) == chol_ent(*self, i as int, j2),
                    j > i ==> T::zero_spec().lt_spec(chol_diag_term(*self, i as int)),
                decreases i + 1 - j,
            {
                let mut sum = T::zero();
                let mut k: usize = 0;
                while k < j
                    invariant
                        k <= j,
                        j <= i,
                        i < n,
                        n == self.m,
                        self.wf(),
                        self.m == self.n,
                        l.wf() && l.m == n && l.n == n,
                        forall|i2: int, j2: int|
                            0 <= j2 <= i2 && i2 < i ==> l.ent(i2, j2) == chol_ent(*self, i2, j2),
                        forall|j2: int|
                            0 <= j2 < j ==> l.ent(i as int, j2) == chol_ent(*self, i as int, j2),
                        sum == chol_sum(*self, i as int, j as int, k as int),
                    decreases j - k,
                {
                    let a = l.get(i, k);
                    let b = l.get(j, k);
                    sum = sum.add(a.mul(b));
                    k = k + 1;
                }
                if j == i {
                    let t = self.get(i, i).sub(sum);
                    proof {
                        assert(t == chol_diag_term(*self, i as int));
                    }
                    let zero = T::zero();
                    if !zero.lt(t) {
                        // The diagonal term does not compare above zero:
                        // the input is not positive definite.
                        return None;
                    }
                    l.set(i, i, t.sqrt());
                } else {
                    let d = l.get(j, j);
                    let v = self.get(i, j).sub(sum).div(d);
                    l.set(i, j, v);
                }
                j = j + 1;
            }
            i = i + 1;
            proof {
                assert forall|j2: int| 0 <= j2 < i
                    implies T::zero_spec().lt_spec(chol_diag_term(*self, j2)) by {
                }
            }
        }
        Some(CholeskyDec { l })
    }
}

} // verus!
