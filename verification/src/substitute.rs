//! Triangular substitution: direct solution of `L x = b` (forward) and
//! `U x = b` (backward) for triangular `L`, `U`.
//!
//! The result is pinned exactly: the contract states that component `i`
//! equals `(b_i - sum of the already-solved terms) / diagonal_i`, folded in
//! the same order the loops accumulate.  Both a single right-hand-side
//! vector and a batch of columns are supported through one generic trait;
//! the column algorithm is implemented once and shared.

use vstd::prelude::*;
use crate::abstr::Real;
use crate::matrix::{dot_to, Matrix};
use crate::vector::Vector;

verus! {

/// The first `k` components of the forward-substitution solution of
/// `L x = b`: component `i` is `(b_i - sum_{t<i} L_{i,t} x_t) / L_{i,i}`.
pub open spec fn forward_seq<T: Real>(l: Matrix<T>, b: Seq<T>, k: int) -> Seq<T>
    decreases k,
{
    if k <= 0 {
        Seq::empty()
    } else {
        let prev = forward_seq(l, b, k - 1);
        let i = k - 1;
        prev.push(b[i].sub_spec(dot_to(l.row(i), prev, i)).div_spec(l.ent(i, i)))
    }
}

/// The last `k` components of the backward-substitution solution of
/// `U x = b` for an `n x n` matrix `U`: component `i` (counted from the
/// end, `i = n - k`) is `(b_i - sum_{t>i} U_{i,t} x_t) / U_{i,i}`.
pub open spec fn backward_seq<T: Real>(u: Matrix<T>, b: Seq<T>, k: int) -> Seq<T>
    decreases k,
{
    if k <= 0 {
        Seq::empty()
    } else {
        let suff = backward_seq(u, b, k - 1);
        let i = u.rows() - k;
        seq![
            b[i].sub_spec(dot_to(u.row(i).skip(i + 1), suff, k - 1)).div_spec(
                u.ent(i, i),
            )
        ] + suff
    }
}

/// `forward_seq` yields one component per row solved.
pub proof fn lemma_forward_seq_len<T: Real>(l: Matrix<T>, b: Seq<T>, k: int)
    requires
        k >= 0,
    ensures
        forward_seq(l, b, k).len() == k,
    decreases k,
{
    if k > 0 {
        lemma_forward_seq_len(l, b, k - 1);
    }
}

/// `backward_seq` yields one component per row solved.
pub proof fn lemma_backward_seq_len<T: Real>(u: Matrix<T>, b: Seq<T>, k: int)
    requires
        k >= 0,
    ensures
        backward_seq(u, b, k).len() == k,
    decreases k,
{
    if k > 0 {
        lemma_backward_seq_len(u, b, k - 1);
    }
}

/// Triangular substitution against a right-hand side of shape `R`.
pub trait Substitute<R> {
    /// The shapes fit: the matrix is square and the right-hand side has
    /// matching height.
    spec fn substitutable(&self, rhs: R) -> bool;

    /// `out` is exactly the forward-substitution solution for `rhs`.
    spec fn forward_ok(&self, rhs: R, out: R) -> bool;

    /// `out` is exactly the backward-substitution solution for `rhs`.
    spec fn backward_ok(&self, rhs: R, out: R) -> bool;

    /// Solves `L x = rhs` for lower-triangular `self`, top row first.
    fn substitute_forward(&self, rhs: R) -> (out: R)
        requires
            self.substitutable(rhs),
        ensures
            self.forward_ok(rhs, out),
    ;

    /// Solves `U x = rhs` for upper-triangular `self`, bottom row first.
    fn substitute_backward(&self, rhs: R) -> (out: R)
        requires
            self.substitutable(rhs),
        ensures
            self.backward_ok(rhs, out),
    ;
}

impl<T: Real> Matrix<T> {
    /// One forward-substitution pass for a single column `b`.
    fn forward_column(&self, b: &Vector<T>) -> (out: Vec<T>)
        requires
            self.wf(),
            self.m == self.n,
            b.wf(),
            b.is_column(),
            b.data.m == self.m,
        ensures
            out@ == forward_seq(*self, b.vals(), self.rows()),
            out.len() == self.m,
    {
        let n = self.m;
        let mut x: Vec<T> = Vec::new();
        let mut i: usize = 0;
        while i < n
            invariant
                i <= n,
                n == self.m,
                self.wf(),
                self.m == self.n,
                b.wf(),
                b.is_column(),
                b.data.m == self.m,
                x.len() == i,
                x@ == forward_seq(*self, b.vals(), i as int),
            decreases n - i,
        {
            let mut sum = T::zero();
            let mut k: usize = 0;
            while k < i
                invariant
                    k <= i,
                    i < n,
                    n == self.m,
                    self.wf(),
                    self.m == self.n,
                    x.len() == i,
                    sum == dot_to(self.row(i as int), x@, k as int),
                decreases i - k,
            {
                let a = self.get(i, k);
                let xv = x[k];
                sum = sum.add(a.mul(xv));
                k = k + 1;
            }
            let bi = b.get(i);
            let di = self.get(i, i);
            x.push(bi.sub(sum).div(di));
            i = i + 1;
        }
        x
    }

    /// One backward-substitution pass for a single column `b`.
    fn backward_column(&self, b: &Vector<T>) -> (out: Vec<T>)
        requires
            self.wf(),
            self.m == self.n,
            b.wf(),
            b.is_column(),
            b.data.m == self.m,
        ensures
            out@ == backward_seq(*self, b.vals(), self.rows()),
            out.len() == self.m,
    {
        let n = self.m;
        let mut x: Vec<T> = Vec::new();
        let mut ii: usize = 0;
        // Builds the solution back to front; `x` holds the components for
        // the rows `n - ii .. n`, in row order.
        while ii < n
            invariant
                ii <= n,
                n == self.m,
                self.wf(),
                self.m == self.n,
                b.wf(),
                b.is_column(),
                b.data.m == self.m,
                x.len() == ii,
                x@ == backward_seq(*self, b.vals(), ii as int),
            decreases n - ii,
        {
            let i = n - 1 - ii;
            let mut sum = T::zero();
            let mut k: usize = i + 1;
            while k < n
                invariant
                    i + 1 <= k <= n,
                    i == n - 1 - ii,
                    ii < n,
                    n == self.m,
                    self.wf(),
                    self.m == self.n,
                    x.len() == ii,
                    sum == dot_to(
                        self.row(i as int).skip(i + 1),
                        x@,
                        k - (i + 1),
                    ),
                decreases n - k,
            {
                let a = self.get(i, k);
                let xv = x[k - (i + 1)];
                sum = sum.add(a.mul(xv));
                k = k + 1;
            }
            let bi = b.get(i);
            let di = self.get(i, i);
            let xi = bi.sub(sum).div(di);
            x.insert(0, xi);
            ii = ii + 1;
            proof {
                assert(x@ =~= backward_seq(*self, b.vals(), ii as int));
            }
        }
        x
    }
}

impl<T: Real> Substitute<Vector<T>> for Matrix<T> {
    open spec fn substitutable(&self, rhs: Vector<T>) -> bool {
        self.wf() && self.m == self.n && rhs.wf() && rhs.is_column() && rhs.data.m == self.m
    }

    open spec fn forward_ok(&self, rhs: Vector<T>, out: Vector<T>) -> bool {
        &&& out.wf()
        &&& out.is_column()
        &&& out.data.m == self.m
        &&& out.vals() == forward_seq(*self, rhs.vals(), self.rows())
    }

    open spec fn backward_ok(&self, rhs: Vector<T>, out: Vector<T>) -> bool {
        &&& out.wf()
        &&& out.is_column()
        &&& out.data.m == self.m
        &&& out.vals() == backward_seq(*self, rhs.vals(), self.rows())
    }

    fn substitute_forward(&self, rhs: Vector<T>) -> (out: Vector<T>) {
        let x = self.forward_column(&rhs);
        Vector::new_column(x)
    }

    fn substitute_backward(&self, rhs: Vector<T>) -> (out: Vector<T>) {
        let x = self.backward_column(&rhs);
        Vector::new_column(x)
    }
}

impl<T: Real> Substitute<Matrix<T>> for Matrix<T> {
    open spec fn substitutable(&self, rhs: Matrix<T>) -> bool {
        self.wf() && self.m == self.n && rhs.wf() && rhs.m == self.m
    }

    open spec fn forward_ok(&self, rhs: Matrix<T>, out: Matrix<T>) -> bool {
        &&& out.wf()
        &&& out.m == rhs.m
        &&& out.n == rhs.n
        &&& forall|j: int|
            0 <= j < rhs.cols() ==> out.col(j) == forward_seq(*self, rhs.col(j), self.rows())
    }

    open spec fn backward_ok(&self, rhs: Matrix<T>, out: Matrix<T>) -> bool {
        &&& out.wf()
        &&& out.m == rhs.m
        &&& out.n == rhs.n
        &&& forall|j: int|
            0 <= j < rhs.cols() ==> out.col(j) == backward_seq(*self, rhs.col(j), self.rows())
    }

    fn substitute_forward(&self, rhs: Matrix<T>) -> (out: Matrix<T>) {
        let n = rhs.m;
        let p = rhs.n;
        let mut data: Vec<T> = Vec::new();
        let mut j: usize = 0;
        while j < p
            invariant
                j <= p,
                n == rhs.m,
                p == rhs.n,
                self.wf(),
                self.m == self.n,
                self.m == rhs.m,
                rhs.wf(),
                data.len() == j * n,
                forall|j2: int, i2: int|
                    0 <= j2 < j && 0 <= i2 < n
                        ==> data[j2 * n + i2] == forward_seq(*self, rhs.col(j2), n as int)[i2],
            decreases p - j,
        {
            let bj = rhs.get_column(j);
            let mut col = self.forward_column(&bj);
            proof {
                assert((j + 1) * n == j * n + n) by (nonlinear_arith);
            }
            let ghost prev = data@;
            data.append(&mut col);
            j = j + 1;
            proof {
                assert forall|j2: int, i2: int| 0 <= j2 < j && 0 <= i2 < n
                    implies data[j2 * n + i2] == forward_seq(*self, rhs.col(j2), n as int)[i2] by {
                    if j2 < j - 1 {
                        assert(0 <= j2 * n + i2 < (j - 1) * n) by (nonlinear_arith)
                            requires
                                0 <= i2 < n,
                                0 <= j2 < j - 1,
                        ;
                        assert(data[j2 * n + i2] == prev[j2 * n + i2]);
                    } else {
                        assert(j2 * n + i2 == prev.len() + i2);
                    }
                }
            }
        }
        proof {
            assert(p * n == n * p) by (nonlinear_arith);
        }
        let out = Matrix::new(n, p, data);
        proof {
            assert forall|j2: int| 0 <= j2 < p
                implies out.col(j2) == forward_seq(*self, rhs.col(j2), n as int) by {
                lemma_forward_seq_len(*self, rhs.col(j2), n as int);
                assert forall|i2: int| 0 <= i2 < n
                    implies out.col(j2)[i2] == forward_seq(*self, rhs.col(j2), n as int)[i2] by {
                    crate::matrix::lemma_flat_index(i2, j2, n as int, p as int);
                }
                assert(out.col(j2) =~= forward_seq(*self, rhs.col(j2), n as int));
            }
        }
        out
    }

    fn substitute_backward(&self, rhs: Matrix<T>) -> (out: Matrix<T>) {
        let n = rhs.m;
        let p = rhs.n;
        let mut data: Vec<T> = Vec::new();
        let mut j: usize = 0;
        while j < p
            invariant
                j <= p,
                n == rhs.m,
                p == rhs.n,
                self.wf(),
                self.m == self.n,
                self.m == rhs.m,
                rhs.wf(),
                data.len() == j * n,
                forall|j2: int, i2: int|
                    0 <= j2 < j && 0 <= i2 < n
                        ==> data[j2 * n + i2] == backward_seq(*self, rhs.col(j2), n as int)[i2],
            decreases p - j,
        {
            let bj = rhs.get_column(j);
            let mut col = self.backward_column(&bj);
            proof {
                assert((j + 1) * n == j * n + n) by (nonlinear_arith);
            }
            let ghost prev = data@;
            data.append(&mut col);
            j = j + 1;
            proof {
                assert forall|j2: int, i2: int| 0 <= j2 < j && 0 <= i2 < n
                    implies data[j2 * n + i2] == backward_seq(*self, rhs.col(j2), n as int)[i2] by {
                    if j2 < j - 1 {
                        assert(0 <= j2 * n + i2 < (j - 1) * n) by (nonlinear_arith)
                            requires
                                0 <= i2 < n,
                                0 <= j2 < j - 1,
                        ;
                        assert(data[j2 * n + i2] == prev[j2 * n + i2]);
                    } else {
                        assert(j2 * n + i2 == prev.len() + i2);
                    }
                }
            }
        }
        proof {
            assert(p * n == n * p) by (nonlinear_arith);
        }
        let out = Matrix::new(n, p, data);
        proof {
            assert forall|j2: int| 0 <= j2 < p
                implies out.col(j2) == backward_seq(*self, rhs.col(j2), n as int) by {
                lemma_backward_seq_len(*self, rhs.col(j2), n as int);
                assert forall|i2: int| 0 <= i2 < n
                    implies out.col(j2)[i2] == backward_seq(*self, rhs.col(j2), n as int)[i2] by {
                    crate::matrix::lemma_flat_index(i2, j2, n as int, p as int);
                }
                assert(out.col(j2) =~= backward_seq(*self, rhs.col(j2), n as int));
            }
        }
        out
    }
}

} // verus!
