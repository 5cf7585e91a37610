//! QR decomposition by Givens rotations.
//!
//! `dec_qr` factors `A` (with at least as many rows as columns) as
//! `A = Q * R` in reduced form: `Q` is `m x n` with orthonormal columns
//! up to rounding, `R` is `n x n` upper triangular by construction.  The factors are pinned exactly: the spec
//! recurrences [`qr_work`] and [`qr_q`] replay the column-by-column
//! rotation sweep — each step rotates one subdiagonal entry against the
//! diagonal of its column and accumulates the rotation — over the
//! abstract scalar operations, multiplying by the full rotation matrix
//! entry for entry as the working loop does.  The subdiagonal entries,
//! which the rotations drive to rounding noise, are cleared exactly by
//! [`Matrix::r`], so the triangularity in the contract is structural.

use vstd::prelude::*;
use crate::abstr::{Field, Identity, Lattice, Real};
use crate::matrix::{dot_to, upper_triangular, Matrix};

verus! {

/// The result of a QR decomposition: `q * r == a` up to rounding.
#[derive(Clone, Debug)]
pub struct QRDec<T> {
    pub q: Matrix<T>,
    pub r: Matrix<T>,
}

impl<T: Copy> QRDec<T> {
    /// The orthogonal factor.
    pub fn q(self) -> (r: Matrix<T>)
        ensures
            r == self.q,
    {
        self.q
    }

    /// The upper triangular factor.
    pub fn r(self) -> (r: Matrix<T>)
        ensures
            r == self.r,
    {
        self.r
    }

    /// Both factors, `(q, r)`.
    pub fn qr(self) -> (r: (Matrix<T>, Matrix<T>))
        ensures
            r.0 == self.q,
            r.1 == self.r,
    {
        (self.q, self.r)
    }
}

/// Entry `(r, c)` of the Givens rotation on the row pair `(piv, tgt)`:
/// the identity with `gc` on the two affected diagonal positions, `gs`
/// at `(piv, tgt)` and `-gs` at `(tgt, piv)`.
pub open spec fn givens_ent<T: Real>(tgt: int, piv: int, gc: T, gs: T, r: int, c: int) -> T {
    if r == piv && c == piv {
        gc
    } else if r == tgt && c == tgt {
        gc
    } else if r == piv && c == tgt {
        gs
    } else if r == tgt && c == piv {
        gs.neg_spec()
    } else if r == c {
        T::one_spec()
    } else {
        T::zero_spec()
    }
}

/// Entry `(r, c)` of the working matrix before the rotation of column
/// `j`, target row `i`: the initial matrix rotated through all earlier
/// steps of the sweep.  A step whose rotation radius counts as zero is
/// skipped.
pub open spec fn qr_work<T: Real>(a: Matrix<T>, j: int, i: int, r: int, c: int) -> T
    decreases j, i, 0int, 0int,
{
    if j < 0 || (j == 0 && i <= 1) {
        a.ent(r, c)
    } else if i <= j + 1 {
        qr_work(a, j - 1, a.rows(), r, c)
    } else {
        let t = i - 1;
        let aa = qr_work(a, j, t, j, j);
        let bb = qr_work(a, j, t, t, j);
        let rad = aa.mul_spec(aa).add_spec(bb.mul_spec(bb)).sqrt_spec();
        if rad.eq_zero_spec() {
            qr_work(a, j, t, r, c)
        } else {
            let gc = aa.div_spec(rad);
            let gs = bb.div_spec(rad);
            qr_gdot(a, j, t, gc, gs, r, c, a.rows())
        }
    }
}

/// The fold of row `r` of the step's rotation against column `c` of the
/// step's working state, over the first `k` terms — exactly the matrix
/// product the working loop computes.
pub open spec fn qr_gdot<T: Real>(
    a: Matrix<T>,
    j: int,
    t: int,
    gc: T,
    gs: T,
    r: int,
    c: int,
    k: int,
) -> T
    decreases j, t, 1int, k,
{
    if k <= 0 {
        T::zero_spec()
    } else {
        qr_gdot(a, j, t, gc, gs, r, c, k - 1).add_spec(
            givens_ent(t, j, gc, gs, r, k - 1).mul_spec(qr_work(a, j, t, k - 1, c)),
        )
    }
}

/// Entry `(r, c)` of the accumulated rotation product before the
/// rotation of column `j`, target row `i`: the identity rotated through
/// all earlier steps of the sweep, in lockstep with [`qr_work`].
pub open spec fn qr_q<T: Real>(a: Matrix<T>, j: int, i: int, r: int, c: int) -> T
    decreases j, i, 2int, 0int,
{
    if j < 0 || (j == 0 && i <= 1) {
        if r == c {
            T::one_spec()
        } else {
            T::zero_spec()
        }
    } else if i <= j + 1 {
        qr_q(a, j - 1, a.rows(), r, c)
    } else {
        let t = i - 1;
        let aa = qr_work(a, j, t, j, j);
        let bb = qr_work(a, j, t, t, j);
        let rad = aa.mul_spec(aa).add_spec(bb.mul_spec(bb)).sqrt_spec();
        if rad.eq_zero_spec() {
            qr_q(a, j, t, r, c)
        } else {
            let gc = aa.div_spec(rad);
            let gs = bb.div_spec(rad);
            qr_qdot(a, j, t, gc, gs, r, c, a.rows())
        }
    }
}

/// The fold of row `r` of the step's rotation against column `c` of the
/// step's accumulated product, over the first `k` terms.
pub open spec fn qr_qdot<T: Real>(
    a: Matrix<T>,
    j: int,
    t: int,
    gc: T,
    gs: T,
    r: int,
    c: int,
    k: int,
) -> T
    decreases j, t, 3int, k,
{
    if k <= 0 {
        T::zero_spec()
    } else {
        qr_qdot(a, j, t, gc, gs, r, c, k - 1).add_spec(
            givens_ent(t, j, gc, gs, r, k - 1).mul_spec(qr_q(a, j, t, k - 1, c)),
        )
    }
}

/// Entry `(r, c)` of the working matrix after the whole sweep.
pub open spec fn qr_work_final<T: Real>(a: Matrix<T>, r: int, c: int) -> T {
    if a.cols() <= 0 {
        a.ent(r, c)
    } else {
        qr_work(a, a.cols() - 1, a.rows(), r, c)
    }
}

/// Entry `(r, c)` of the accumulated rotation product after the whole
/// sweep.
pub open spec fn qr_q_final<T: Real>(a: Matrix<T>, r: int, c: int) -> T {
    if a.cols() <= 0 {
        if r == c {
            T::one_spec()
        } else {
            T::zero_spec()
        }
    } else {
        qr_q(a, a.cols() - 1, a.rows(), r, c)
    }
}

/// A matrix product row-times-column fold equals [`qr_gdot`] when the
/// left factor holds the rotation entries and the right factor holds the
/// step's working state.
proof fn lemma_qr_gdot_eq<T: Real>(
    a: Matrix<T>,
    j: int,
    t: int,
    gc: T,
    gs: T,
    r: int,
    c: int,
    g: Matrix<T>,
    w: Matrix<T>,
    k: int,
)
    requires
        g.rows() == a.rows(),
        g.cols() == a.rows(),
        w.rows() == a.rows(),
        k <= a.rows(),
        0 <= r < g.cols(),
        0 <= c < w.cols(),
        forall|kk: int| 0 <= kk < a.rows() ==> g.ent(r, kk) == givens_ent(t, j, gc, gs, r, kk),
        forall|kk: int| 0 <= kk < a.rows() ==> w.ent(kk, c) == qr_work(a, j, t, kk, c),
    ensures
        dot_to(g.row(r), w.col(c), k) == qr_gdot(a, j, t, gc, gs, r, c, k),
    decreases k,
{
    if k > 0 {
        lemma_qr_gdot_eq(a, j, t, gc, gs, r, c, g, w, k - 1);
    }
}

/// The companion of [`lemma_qr_gdot_eq`] for the accumulated product.
proof fn lemma_qr_qdot_eq<T: Real>(
    a: Matrix<T>,
    j: int,
    t: int,
    gc: T,
    gs: T,
    r: int,
    c: int,
    g: Matrix<T>,
    w: Matrix<T>,
    k: int,
)
    requires
        g.rows() == a.rows(),
        g.cols() == a.rows(),
        w.rows() == a.rows(),
        k <= a.rows(),
        0 <= r < g.cols(),
        0 <= c < w.cols(),
        forall|kk: int| 0 <= kk < a.rows() ==> g.ent(r, kk) == givens_ent(t, j, gc, gs, r, kk),
        forall|kk: int| 0 <= kk < a.rows() ==> w.ent(kk, c) == qr_q(a, j, t, kk, c),
    ensures
        dot_to(g.row(r), w.col(c), k) == qr_qdot(a, j, t, gc, gs, r, c, k),
    decreases k,
{
    if k > 0 {
        lemma_qr_qdot_eq(a, j, t, gc, gs, r, c, g, w, k - 1);
    }
}

impl<T: Identity + Copy> Matrix<T> {
    /// Clears every entry strictly below the diagonal, keeping the rest:
    /// the upper triangular part of the matrix, exactly.
    pub fn r(self) -> (out: Self)
        requires
            self.wf(),
        ensures
            out.wf(),
            out.m == self.m,
            out.n == self.n,
            upper_triangular(out),
            forall|i: int, j: int|
                0 <= i < self.rows() && 0 <= j < self.cols() && i <= j
                    ==> out.ent(i, j) == self.ent(i, j),
    {
        let mut out = self;
        let ghost orig = out;
        let mut i: usize = 1;
        while i < out.m
            invariant
                1 <= i,
                out.wf(),
                out.m == orig.m,
                out.n == orig.n,
                forall|i2: int, j2: int|
                    0 <= i2 < orig.rows() && 0 <= j2 < orig.cols() && i2 <= j2
                        ==> out.ent(i2, j2) == orig.ent(i2, j2),
                forall|i2: int, j2: int|
                    0 <= i2 < i && 0 <= j2 < orig.cols() && i2 > j2
                        ==> out.ent(i2, j2) == T::zero_spec(),
            decreases out.m - i,
        {
            let bound = if i < out.n { i } else { out.n };
            let mut k: usize = 0;
            while k < bound
                invariant
                    bound == (if i < out.n { i as int } else { out.n as int }),
                    i < out.m,
                    1 <= i,
                    k <= bound,
                    out.wf(),
                    out.m == orig.m,
                    out.n == orig.n,
                    forall|i2: int, j2: int|
                        0 <= i2 < orig.rows() && 0 <= j2 < orig.cols() && i2 <= j2
                            ==> out.ent(i2, j2) == orig.ent(i2, j2),
                    forall|i2: int, j2: int|
                        0 <= i2 < i && 0 <= j2 < orig.cols() && i2 > j2
                            ==> out.ent(i2, j2) == T::zero_spec(),
                    forall|j2: int| 0 <= j2 < k ==> out.ent(i as int, j2) == T::zero_spec(),
                decreases bound - k,
            {
                out.set(i, k, T::zero());
                k = k + 1;
            }
            i = i + 1;
        }
        out
    }
}

impl<T: Real> Matrix<T> {
    /// The Givens rotation on the row pair `(piv, tgt)`, with every entry
    /// pinned to [`givens_ent`].
    fn givens(size: usize, tgt: usize, piv: usize, c: T, s: T) -> (g: Matrix<T>)
        requires
            tgt < size,
            piv < size,
            tgt != piv,
            size * size <= usize::MAX,
        ensures
            g.wf(),
            g.m == size,
            g.n == size,
            forall|r2: int, c2: int|
                0 <= r2 < size && 0 <= c2 < size ==> g.ent(r2, c2) == givens_ent(
                    tgt as int,
                    piv as int,
                    c,
                    s,
                    r2,
                    c2,
                ),
    {
        let mut g = Matrix::<T>::one(size);
        g.set(piv, piv, c);
        g.set(tgt, tgt, c);
        g.set(piv, tgt, s);
        g.set(tgt, piv, s.neg());
        g
    }

    /// QR decomposition by Givens rotations, for `rows >= columns`, in
    /// reduced form: `Q` is `m x n`, `R` is `n x n`.
    ///
    /// Column by column, each subdiagonal entry is rotated to zero
    /// against the diagonal of its column; the rotations accumulate into
    /// `Q`.  A rotation radius that counts as zero means both entries
    /// already vanish and the rotation is skipped.  `Q` holds the first
    /// `n` columns of the transposed rotation product, pinned entry for
    /// entry to [`qr_q_final`]; `R` is the leading `n x n` upper triangle
    /// of the swept working matrix, pinned to [`qr_work_final`].
    pub fn dec_qr(&self) -> (r: QRDec<T>)
        requires
            self.wf(),
            self.m >= self.n,
            self.m * self.m <= usize::MAX,
        ensures
            r.q.wf() && r.q.m == self.m && r.q.n == self.n,
            r.r.wf() && r.r.m == self.n && r.r.n == self.n,
            upper_triangular(r.r),
            forall|i: int, j: int|
                0 <= i < self.rows() && 0 <= j < self.cols() ==> r.q.ent(i, j) == qr_q_final(
                    *self,
                    j,
                    i,
                ),
            forall|i: int, j: int|
                0 <= i <= j < self.cols() ==> r.r.ent(i, j) == qr_work_final(*self, i, j),
    {
        let m = self.m;
        let n = self.n;
        let mut q = Matrix::<T>::one(m);
        let mut work = self.duplicate();
        let mut j: usize = 0;
        proof {
            assert forall|r2: int, c2: int| 0 <= r2 < m && 0 <= c2 < n
                implies work.ent(r2, c2) == qr_work(*self, 0, 1, r2, c2) by {}
            assert forall|r2: int, c2: int| 0 <= r2 < m && 0 <= c2 < m
                implies q.ent(r2, c2) == qr_q(*self, 0, 1, r2, c2) by {}
        }
        while j < n
            invariant
                j <= n,
                n == self.n,
                m == self.m,
                n <= m,
                m * m <= usize::MAX,
                self.wf(),
                q.wf() && q.m == m && q.n == m,
                work.wf() && work.m == m && work.n == n,
                forall|r2: int, c2: int|
                    0 <= r2 < m && 0 <= c2 < n ==> work.ent(r2, c2) == qr_work(
                        *self,
                        j as int,
                        j + 1,
                        r2,
                        c2,
                    ),
                forall|r2: int, c2: int|
                    0 <= r2 < m && 0 <= c2 < m ==> q.ent(r2, c2) == qr_q(
                        *self,
                        j as int,
                        j + 1,
                        r2,
                        c2,
                    ),
            decreases n - j,
        {
            let mut i: usize = j + 1;
            while i < m
                invariant
                    j < i <= m,
                    j < n,
                    n == self.n,
                    m == self.m,
                    n <= m,
                    m * m <= usize::MAX,
                    self.wf(),
                    q.wf() && q.m == m && q.n == m,
                    work.wf() && work.m == m && work.n == n,
                    forall|r2: int, c2: int|
                        0 <= r2 < m && 0 <= c2 < n ==> work.ent(r2, c2) == qr_work(
                            *self,
                            j as int,
                            i as int,
                            r2,
                            c2,
                        ),
                    forall|r2: int, c2: int|
                        0 <= r2 < m && 0 <= c2 < m ==> q.ent(r2, c2) == qr_q(
                            *self,
                            j as int,
                            i as int,
                            r2,
                            c2,
                        ),
                decreases m - i,
            {
                let aa = work.get(j, j);
                let bb = work.get(i, j);
                let rad = aa.mul(aa).add(bb.mul(bb)).sqrt();
                if !rad.eq_zero() {
                    let c = aa.div(rad);
                    let s = bb.div(rad);
                    let g = Self::givens(m, i, j, c, s);
                    proof {
                        assert(m * n <= m * m) by (nonlinear_arith)
                            requires
                                n <= m,
                                0 <= m,
                        ;
                    }
                    let new_work = g.mul(&work);
                    let new_q = g.mul(&q);
                    proof {
                        assert forall|r2: int, c2: int| 0 <= r2 < m && 0 <= c2 < n
                            implies new_work.ent(r2, c2) == qr_work(
                                *self,
                                j as int,
                                i + 1,
                                r2,
                                c2,
                            ) by {
                            lemma_qr_gdot_eq(
                                *self, j as int, i as int, c, s, r2, c2, g, work, m as int,
                            );
                            assert(work.row(j as int).len() == n as nat);
                            assert(g.row(r2).len() == m as nat);
                        }
                        assert forall|r2: int, c2: int| 0 <= r2 < m && 0 <= c2 < m
                            implies new_q.ent(r2, c2) == qr_q(*self, j as int, i + 1, r2, c2) by {
                            lemma_qr_qdot_eq(
                                *self, j as int, i as int, c, s, r2, c2, g, q, m as int,
                            );
                            assert(g.row(r2).len() == m as nat);
                        }
                    }
                    work = new_work;
                    q = new_q;
                } else {
                    proof {
                        assert forall|r2: int, c2: int| 0 <= r2 < m && 0 <= c2 < n
                            implies work.ent(r2, c2) == qr_work(
                                *self,
                                j as int,
                                i + 1,
                                r2,
                                c2,
                            ) by {}
                        assert forall|r2: int, c2: int| 0 <= r2 < m && 0 <= c2 < m
                            implies q.ent(r2, c2) == qr_q(*self, j as int, i + 1, r2, c2) by {}
                    }
                }
                i = i + 1;
            }
            j = j + 1;
            proof {
                assert forall|r2: int, c2: int| 0 <= r2 < m && 0 <= c2 < n
                    implies work.ent(r2, c2) == qr_work(*self, j as int, j + 1, r2, c2) by {}
                assert forall|r2: int, c2: int| 0 <= r2 < m && 0 <= c2 < m
                    implies q.ent(r2, c2) == qr_q(*self, j as int, j + 1, r2, c2) by {}
            }
        }
        let qt = q.transpose().submatrix_top_left(m, n);
        let rr = work.r().submatrix_top_left(n, n);
        proof {
            assert forall|i2: int, j2: int| 0 <= i2 < m && 0 <= j2 < n
                implies qt.ent(i2, j2) == qr_q_final(*self, j2, i2) by {}
            assert forall|i2: int, j2: int| 0 <= i2 <= j2 < n
                implies rr.ent(i2, j2) == qr_work_final(*self, i2, j2) by {}
            assert(upper_triangular(rr));
        }
        QRDec { q: qt, r: rr }
    }
}

} // verus!
