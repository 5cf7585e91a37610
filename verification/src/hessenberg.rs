//! Hessenberg reduction by Householder reflections.
//!
//! `dec_hessenberg` turns a square matrix `A` into `(Q, H)` with
//! `Q * H * Q^T == A` up to rounding and `H` upper Hessenberg.  Each of
//! the `m - 1` reflections zeroes one column below the first subdiagonal
//! and is applied on both sides, preserving the similarity; the
//! reflections accumulate into `Q`.  The factors are pinned exactly: the
//! spec recurrences [`hs_h`] and [`hs_q`] replay the sweep — reflector
//! built from the active column, two-sided application, accumulation —
//! over the abstract scalar operations, multiplying by the full
//! reflector matrix entry for entry as the working loop does.  The
//! entries the reflections drive to rounding noise are cleared exactly
//! by [`Matrix::h`], so the Hessenberg shape in the contract is
//! structural.

use vstd::prelude::*;
use crate::abstr::{Field, Identity, Lattice, Real};
use crate::matrix::{dot_to, Matrix};
use crate::vector::Vector;

verus! {

/// Upper Hessenberg: every entry strictly below the first subdiagonal is
/// zero.
pub open spec fn upper_hessenberg<T: Identity>(a: Matrix<T>) -> bool {
    forall|i: int, j: int|
        0 <= i < a.rows() && 0 <= j < a.cols() && i > j + 1 ==> a.ent(i, j) == T::zero_spec()
}

/// The squared length of `v[k .. t]`, folded front to back.
pub open spec fn house_norm2<T: Real>(v: Seq<T>, k: int, t: int) -> T
    decreases t,
{
    if t <= k || t <= 0 {
        T::zero_spec()
    } else {
        house_norm2(v, k, t - 1).add_spec(v[t - 1].mul_spec(v[t - 1]))
    }
}

/// The reflection target `-sign(v[k]) * |v[k..]|`.
pub open spec fn house_alpha<T: Real>(v: Seq<T>, k: int) -> T {
    let norm = house_norm2(v, k, v.len() as int).sqrt_spec();
    if T::zero_spec().lt_spec(v[k]) {
        norm.neg_spec()
    } else {
        norm
    }
}

/// Component `idx` of the reflection axis `u = v[k..] - alpha * e1`.
pub open spec fn house_u<T: Real>(v: Seq<T>, k: int, idx: int) -> T {
    if idx == 0 {
        v[k].sub_spec(house_alpha(v, k))
    } else {
        v[k + idx]
    }
}

/// The squared length of the first `t` components of the reflection
/// axis, folded front to back.
pub open spec fn house_unorm2<T: Real>(v: Seq<T>, k: int, t: int) -> T
    decreases t,
{
    if t <= 0 {
        T::zero_spec()
    } else {
        house_unorm2(v, k, t - 1).add_spec(house_u(v, k, t - 1).mul_spec(house_u(v, k, t - 1)))
    }
}

/// Entry `(r, c)` of the Householder reflector for the column `v` at
/// position `k`: the identity on the leading `k` coordinates,
/// `I - (2 / u^T u) * u u^T` on the rest; the identity throughout when
/// the axis length counts as zero.
pub open spec fn house_ent<T: Real>(v: Seq<T>, k: int, r: int, c: int) -> T {
    let un2 = house_unorm2(v, k, v.len() - k);
    let ident: T = if r == c {
        T::one_spec()
    } else {
        T::zero_spec()
    };
    if un2.eq_zero_spec() {
        ident
    } else if r >= k && c >= k {
        let two = T::one_spec().add_spec(T::one_spec());
        ident.sub_spec(
            two.div_spec(un2).mul_spec(house_u(v, k, r - k).mul_spec(house_u(v, k, c - k))),
        )
    } else {
        ident
    }
}

/// The active column of the sweep's state before step `s`: column
/// `s - 1` of [`hs_h`], as a component sequence.
pub open spec fn hs_col<T: Real>(a: Matrix<T>, s: int) -> Seq<T>
    decreases s, 1int, 0int,
{
    Seq::new(a.rows() as nat, |i: int| hs_h(a, s, i, s - 1))
}

/// Entry `(r, c)` of the reflector of step `s`, built from the active
/// column of the state before the step.
pub open spec fn hs_house<T: Real>(a: Matrix<T>, s: int, r: int, c: int) -> T
    decreases s, 2int, 0int,
{
    house_ent(hs_col(a, s), s, r, c)
}

/// The fold of row `r` of the step's reflector against column `c` of the
/// step's state, over the first `t` terms: the left application.
pub open spec fn hs_f1<T: Real>(a: Matrix<T>, s: int, r: int, c: int, t: int) -> T
    decreases s, 3int, t,
{
    if t <= 0 {
        T::zero_spec()
    } else {
        hs_f1(a, s, r, c, t - 1).add_spec(
            hs_house(a, s, r, t - 1).mul_spec(hs_h(a, s, t - 1, c)),
        )
    }
}

/// Entry `(r, c)` after the left application of step `s`.
pub open spec fn hs_h1<T: Real>(a: Matrix<T>, s: int, r: int, c: int) -> T
    decreases s, 4int, 0int,
{
    hs_f1(a, s, r, c, a.rows())
}

/// The fold of row `r` of the left-applied state against row `c` of the
/// step's reflector, over the first `t` terms: the right application by
/// the transposed reflector.
pub open spec fn hs_f2<T: Real>(a: Matrix<T>, s: int, r: int, c: int, t: int) -> T
    decreases s, 5int, t,
{
    if t <= 0 {
        T::zero_spec()
    } else {
        hs_f2(a, s, r, c, t - 1).add_spec(
            hs_h1(a, s, r, t - 1).mul_spec(hs_house(a, s, c, t - 1)),
        )
    }
}

/// The fold of row `r` of the step's reflector against column `c` of the
/// step's accumulated product, over the first `t` terms.
pub open spec fn hs_qf<T: Real>(a: Matrix<T>, s: int, r: int, c: int, t: int) -> T
    decreases s, 6int, t,
{
    if t <= 0 {
        T::zero_spec()
    } else {
        hs_qf(a, s, r, c, t - 1).add_spec(
            hs_house(a, s, r, t - 1).mul_spec(hs_q(a, s, t - 1, c)),
        )
    }
}

/// Entry `(r, c)` of the working matrix before step `k` of the sweep:
/// the input conjugated by the first `k - 1` reflectors.
pub open spec fn hs_h<T: Real>(a: Matrix<T>, k: int, r: int, c: int) -> T
    decreases k, 0int, 0int,
{
    if k <= 1 {
        a.ent(r, c)
    } else {
        hs_f2(a, k - 1, r, c, a.rows())
    }
}

/// Entry `(r, c)` of the accumulated reflector product before step `k`.
pub open spec fn hs_q<T: Real>(a: Matrix<T>, k: int, r: int, c: int) -> T
    decreases k, 0int, 1int,
{
    if k <= 1 {
        if r == c {
            T::one_spec()
        } else {
            T::zero_spec()
        }
    } else {
        hs_qf(a, k - 1, r, c, a.rows())
    }
}

/// The left-application fold equals [`hs_f1`] when the factors hold the
/// reflector's and the state's entries.
proof fn lemma_hs_f1_eq<T: Real>(
    a: Matrix<T>,
    s: int,
    r: int,
    c: int,
    g: Matrix<T>,
    w: Matrix<T>,
    t: int,
)
    requires
        g.rows() == a.rows(),
        g.cols() == a.rows(),
        w.rows() == a.rows(),
        t <= a.rows(),
        0 <= r < g.rows(),
        0 <= c < w.cols(),
        forall|x: int| 0 <= x < a.rows() ==> g.ent(r, x) == hs_house(a, s, r, x),
        forall|x: int| 0 <= x < a.rows() ==> w.ent(x, c) == hs_h(a, s, x, c),
    ensures
        dot_to(g.row(r), w.col(c), t) == hs_f1(a, s, r, c, t),
    decreases t,
{
    if t > 0 {
        lemma_hs_f1_eq(a, s, r, c, g, w, t - 1);
    }
}

/// The right-application fold equals [`hs_f2`] when the factors hold the
/// left-applied state's and the transposed reflector's entries.
proof fn lemma_hs_f2_eq<T: Real>(
    a: Matrix<T>,
    s: int,
    r: int,
    c: int,
    w: Matrix<T>,
    gt: Matrix<T>,
    t: int,
)
    requires
        w.rows() == a.rows(),
        w.cols() == a.rows(),
        gt.rows() == a.rows(),
        t <= a.rows(),
        0 <= r < w.rows(),
        0 <= c < gt.cols(),
        forall|x: int| 0 <= x < a.rows() ==> w.ent(r, x) == hs_h1(a, s, r, x),
        forall|x: int| 0 <= x < a.rows() ==> gt.ent(x, c) == hs_house(a, s, c, x),
    ensures
        dot_to(w.row(r), gt.col(c), t) == hs_f2(a, s, r, c, t),
    decreases t,
{
    if t > 0 {
        lemma_hs_f2_eq(a, s, r, c, w, gt, t - 1);
    }
}

/// The accumulation fold equals [`hs_qf`] when the factors hold the
/// reflector's and the accumulated product's entries.
proof fn lemma_hs_qf_eq<T: Real>(
    a: Matrix<T>,
    s: int,
    r: int,
    c: int,
    g: Matrix<T>,
    w: Matrix<T>,
    t: int,
)
    requires
        g.rows() == a.rows(),
        g.cols() == a.rows(),
        w.rows() == a.rows(),
        t <= a.rows(),
        0 <= r < g.rows(),
        0 <= c < w.cols(),
        forall|x: int| 0 <= x < a.rows() ==> g.ent(r, x) == hs_house(a, s, r, x),
        forall|x: int| 0 <= x < a.rows() ==> w.ent(x, c) == hs_q(a, s, x, c),
    ensures
        dot_to(g.row(r), w.col(c), t) == hs_qf(a, s, r, c, t),
    decreases t,
{
    if t > 0 {
        lemma_hs_qf_eq(a, s, r, c, g, w, t - 1);
    }
}

impl<T: Identity + Copy> Matrix<T> {
    /// Clears every entry strictly below the first subdiagonal, keeping
    /// the rest: the upper Hessenberg part of the matrix, exactly.
    pub fn h(self) -> (out: Self)
        requires
            self.wf(),
        ensures
            out.wf(),
            out.m == self.m,
            out.n == self.n,
            upper_hessenberg(out),
            forall|i: int, j: int|
                0 <= i < self.rows() && 0 <= j < self.cols() && i <= j + 1
                    ==> out.ent(i, j) == self.ent(i, j),
    {
        let mut out = self;
        let ghost orig = out;
        let mut i: usize = 2;
        while i < out.m
            invariant
                2 <= i,
                out.wf(),
                out.m == orig.m,
                out.n == orig.n,
                forall|i2: int, j2: int|
                    0 <= i2 < orig.rows() && 0 <= j2 < orig.cols() && i2 <= j2 + 1
                        ==> out.ent(i2, j2) == orig.ent(i2, j2),
                forall|i2: int, j2: int|
                    0 <= i2 < i && 0 <= j2 < orig.cols() && i2 > j2 + 1
                        ==> out.ent(i2, j2) == T::zero_spec(),
            decreases out.m - i,
        {
            let bound = if i - 1 < out.n { i - 1 } else { out.n };
            let mut k: usize = 0;
            while k < bound
                invariant
                    bound == (if i - 1 < out.n { i - 1 } else { out.n as int }),
                    2 <= i,
                    i < out.m,
                    k <= bound,
                    out.wf(),
                    out.m == orig.m,
                    out.n == orig.n,
                    forall|i2: int, j2: int|
                        0 <= i2 < orig.rows() && 0 <= j2 < orig.cols() && i2 <= j2 + 1
                            ==> out.ent(i2, j2) == orig.ent(i2, j2),
                    forall|i2: int, j2: int|
                        0 <= i2 < i && 0 <= j2 < orig.cols() && i2 > j2 + 1
                            ==> out.ent(i2, j2) == T::zero_spec(),
                    forall|j2: int| 0 <= j2 < k ==> out.ent(i as int, j2) == T::zero_spec(),
                decreases bound - k,
            {
                out.set(i, k, T::zero());
                k = k + 1;
            }
            i = i + 1;
        }
        out
    }
}

impl<T: Real> Matrix<T> {
    /// The Householder reflector that maps the tail `v[k..]` of the
    /// column `v` onto a multiple of the first unit vector of that tail,
    /// with every entry pinned to [`house_ent`].
    pub(crate) fn householder(v: &Vector<T>, k: usize) -> (h: Matrix<T>)
        requires
            v.wf(),
            k < v.len(),
            v.len() * v.len() <= usize::MAX,
        ensures
            h.wf(),
            h.m == v.len(),
            h.n == v.len(),
            forall|r2: int, c2: int|
                0 <= r2 < v.len() && 0 <= c2 < v.len() ==> h.ent(r2, c2) == house_ent(
                    v.vals(),
                    k as int,
                    r2,
                    c2,
                ),
    {
        let count = if v.data.m == 1 { v.data.n } else { v.data.m };
        // The squared length of the tail.
        let mut norm2 = T::zero();
        let mut t: usize = k;
        while t < count
            invariant
                k <= t <= count,
                count == v.len(),
                v.wf(),
                norm2 == house_norm2(v.vals(), k as int, t as int),
            decreases count - t,
        {
            let x = v.get(t);
            norm2 = norm2.add(x.mul(x));
            t = t + 1;
        }
        let norm = norm2.sqrt();
        let head = v.get(k);
        let alpha = if T::zero().lt(head) {
            norm.neg()
        } else {
            norm
        };
        proof {
            assert(alpha == house_alpha(v.vals(), k as int));
        }
        // The reflection axis u = tail - alpha * e1.
        let mut u: Vec<T> = Vec::new();
        u.push(head.sub(alpha));
        let mut t2: usize = k + 1;
        while t2 < count
            invariant
                k + 1 <= t2 <= count,
                count == v.len(),
                v.wf(),
                alpha == house_alpha(v.vals(), k as int),
                u.len() == t2 - k,
                forall|idx: int| 0 <= idx < u.len() ==> u[idx] == house_u(v.vals(), k as int, idx),
            decreases count - t2,
        {
            u.push(v.get(t2));
            t2 = t2 + 1;
        }
        let mut unorm2 = T::zero();
        let mut t3: usize = 0;
        while t3 < u.len()
            invariant
                t3 <= u.len(),
                u.len() == count - k,
                count == v.len(),
                v.wf(),
                forall|idx: int| 0 <= idx < u.len() ==> u[idx] == house_u(v.vals(), k as int, idx),
                unorm2 == house_unorm2(v.vals(), k as int, t3 as int),
            decreases u.len() - t3,
        {
            let x = u[t3];
            unorm2 = unorm2.add(x.mul(x));
            t3 = t3 + 1;
        }
        let mut h = Matrix::<T>::one(count);
        if unorm2.eq_zero() {
            return h;
        }
        let two = T::one().add(T::one());
        let scale = two.div(unorm2);
        let mut i: usize = k;
        while i < count
            invariant
                k <= i <= count,
                count == v.len(),
                v.wf(),
                u.len() == count - k,
                forall|idx: int| 0 <= idx < u.len() ==> u[idx] == house_u(v.vals(), k as int, idx),
                unorm2 == house_unorm2(v.vals(), k as int, count - k),
                !unorm2.eq_zero_spec(),
                scale == T::one_spec().add_spec(T::one_spec()).div_spec(unorm2),
                h.wf() && h.m == count && h.n == count,
                forall|r2: int, c2: int|
                    0 <= r2 < count && 0 <= c2 < count && !(k <= r2 < i && k <= c2)
                        ==> h.ent(r2, c2) == (if r2 == c2 {
                            T::one_spec()
                        } else {
                            T::zero_spec()
                        }),
                forall|r2: int, c2: int|
                    k <= r2 < i && k <= c2 < count ==> h.ent(r2, c2) == house_ent(
                        v.vals(),
                        k as int,
                        r2,
                        c2,
                    ),
            decreases count - i,
        {
            let mut j: usize = k;
            while j < count
                invariant
                    k <= i < count,
                    k <= j <= count,
                    count == v.len(),
                    v.wf(),
                    u.len() == count - k,
                    forall|idx: int|
                        0 <= idx < u.len() ==> u[idx] == house_u(v.vals(), k as int, idx),
                    unorm2 == house_unorm2(v.vals(), k as int, count - k),
                    !unorm2.eq_zero_spec(),
                    scale == T::one_spec().add_spec(T::one_spec()).div_spec(unorm2),
                    h.wf() && h.m == count && h.n == count,
                    forall|r2: int, c2: int|
                        0 <= r2 < count && 0 <= c2 < count && !(k <= r2 < i && k <= c2) && !(r2
                            == i && k <= c2 < j) ==> h.ent(r2, c2) == (if r2 == c2 {
                            T::one_spec()
                        } else {
                            T::zero_spec()
                        }),
                    forall|r2: int, c2: int|
                        k <= r2 < i && k <= c2 < count ==> h.ent(r2, c2) == house_ent(
                            v.vals(),
                            k as int,
                            r2,
                            c2,
                        ),
                    forall|c2: int|
                        k <= c2 < j ==> h.ent(i as int, c2) == house_ent(
                            v.vals(),
                            k as int,
                            i as int,
                            c2,
                        ),
                decreases count - j,
            {
                let base = if i == j {
                    T::one()
                } else {
                    T::zero()
                };
                let val = base.sub(scale.mul(u[i - k].mul(u[j - k])));
                h.set(i, j, val);
                j = j + 1;
            }
            i = i + 1;
        }
        h
    }

    /// Hessenberg reduction of a square, non-empty matrix: returns
    /// `(Q, H)` with `Q * H * Q^T == A` up to rounding and `H` upper
    /// Hessenberg by construction.  `Q` is the transpose of the
    /// accumulated reflector product, pinned entry for entry to
    /// [`hs_q`]; `H` is the upper Hessenberg part of the swept working
    /// matrix, pinned to [`hs_h`] after all steps.
    pub fn dec_hessenberg(&self) -> (r: (Matrix<T>, Matrix<T>))
        requires
            self.wf(),
            self.m == self.n,
            self.m >= 1,
        ensures
            r.0.wf() && r.0.m == self.m && r.0.n == self.m,
            r.1.wf() && r.1.m == self.m && r.1.n == self.m,
            upper_hessenberg(r.1),
            forall|i: int, j: int|
                0 <= i < self.rows() && 0 <= j < self.rows() ==> r.0.ent(i, j) == hs_q(
                    *self,
                    self.rows(),
                    j,
                    i,
                ),
            forall|i: int, j: int|
                0 <= i < self.rows() && 0 <= j < self.rows() && i <= j + 1 ==> r.1.ent(i, j)
                    == hs_h(*self, self.rows(), i, j),
    {
        let m = self.m;
        proof {
            assert(m * m <= usize::MAX) by (nonlinear_arith)
                requires
                    self.data.len() == m * m,
            ;
        }
        let mut q = Matrix::<T>::one(m);
        let mut h = self.duplicate();
        let mut k: usize = 1;
        proof {
            assert forall|r2: int, c2: int| 0 <= r2 < m && 0 <= c2 < m
                implies h.ent(r2, c2) == hs_h(*self, 1, r2, c2) by {}
            assert forall|r2: int, c2: int| 0 <= r2 < m && 0 <= c2 < m
                implies q.ent(r2, c2) == hs_q(*self, 1, r2, c2) by {}
        }
        while k < m
            invariant
                1 <= k <= m,
                m == self.m,
                m * m <= usize::MAX,
                self.wf(),
                self.m == self.n,
                q.wf() && q.m == m && q.n == m,
                h.wf() && h.m == m && h.n == m,
                forall|r2: int, c2: int|
                    0 <= r2 < m && 0 <= c2 < m ==> h.ent(r2, c2) == hs_h(*self, k as int, r2, c2),
                forall|r2: int, c2: int|
                    0 <= r2 < m && 0 <= c2 < m ==> q.ent(r2, c2) == hs_q(*self, k as int, r2, c2),
            decreases m - k,
        {
            let v = h.get_column(k - 1);
            proof {
                assert(v.vals() =~= hs_col(*self, k as int));
            }
            let house = Self::householder(&v, k);
            proof {
                assert forall|r2: int, c2: int| 0 <= r2 < m && 0 <= c2 < m
                    implies house.ent(r2, c2) == hs_house(*self, k as int, r2, c2) by {}
            }
            let h1 = house.mul(&h);
            let q1 = house.mul(&q);
            proof {
                assert forall|r2: int, c2: int| 0 <= r2 < m && 0 <= c2 < m
                    implies h1.ent(r2, c2) == hs_h1(*self, k as int, r2, c2) by {
                    lemma_hs_f1_eq(*self, k as int, r2, c2, house, h, m as int);
                }
                assert forall|r2: int, c2: int| 0 <= r2 < m && 0 <= c2 < m
                    implies q1.ent(r2, c2) == hs_qf(*self, k as int, r2, c2, m as int) by {
                    lemma_hs_qf_eq(*self, k as int, r2, c2, house, q, m as int);
                }
            }
            let house_t = house.transpose();
            let h2 = h1.mul(&house_t);
            proof {
                assert forall|r2: int, c2: int| 0 <= r2 < m && 0 <= c2 < m
                    implies h2.ent(r2, c2) == hs_f2(*self, k as int, r2, c2, m as int) by {
                    lemma_hs_f2_eq(*self, k as int, r2, c2, h1, house_t, m as int);
                }
            }
            h = h2;
            q = q1;
            k = k + 1;
            proof {
                assert forall|r2: int, c2: int| 0 <= r2 < m && 0 <= c2 < m
                    implies h.ent(r2, c2) == hs_h(*self, k as int, r2, c2) by {}
                assert forall|r2: int, c2: int| 0 <= r2 < m && 0 <= c2 < m
                    implies q.ent(r2, c2) == hs_q(*self, k as int, r2, c2) by {}
            }
        }
        let qt = q.transpose();
        let hh = h.h();
        proof {
            assert forall|i2: int, j2: int| 0 <= i2 < m && 0 <= j2 < m
                implies qt.ent(i2, j2) == hs_q(*self, m as int, j2, i2) by {}
        }
        (qt, hh)
    }
}

} // verus!
