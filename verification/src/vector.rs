//! Row and column vectors, as thin wrappers over a one-row or one-column
//! matrix.  The orientation is part of a vector's identity and decides how
//! indexing resolves.

use vstd::prelude::*;
use crate::abstr::{Field, Identity, Lattice, Scalar};
use crate::matrix::{dot, dot_to, Matrix};

verus! {

/// A vector: a matrix one of whose dimensions is `1`.
#[derive(Clone, Debug)]
pub struct Vector<T> {
    pub data: Matrix<T>,
}

/// The index the running-maximum scan settles on after examining the first
/// `k` components: the scan starts at index `0` and moves exactly when it
/// sees a strictly larger component.
pub open spec fn argmax_to<T: Lattice>(s: Seq<T>, k: int) -> int
    decreases k,
{
    if k <= 1 {
        0
    } else {
        let p = argmax_to(s, k - 1);
        if s[p].lt_spec(s[k - 1]) {
            k - 1
        } else {
            p
        }
    }
}

/// For a shape one of whose dimensions is `1`, the buffer length equals the
/// other dimension.
proof fn lemma_one_dim_product(m: int, n: int)
    requires
        m == 1 || n == 1,
    ensures
        m * n == (if m == 1 { n } else { m }),
{
    assert(m * n == (if m == 1 { n } else { m })) by (nonlinear_arith)
        requires
            m == 1 || n == 1,
    ;
}

impl<T> Vector<T> {
    /// Well-formedness: the wrapped matrix is well formed and one of its
    /// dimensions is `1`.
    pub open spec fn wf(&self) -> bool {
        self.data.wf() && (self.data.m == 1 || self.data.n == 1)
    }

    /// A one-row wrapped matrix.  A `1 x 1` vector counts as a row vector,
    /// mirroring how indexing resolves the ambiguity.
    pub open spec fn is_row(&self) -> bool {
        self.data.m == 1
    }

    /// A one-column wrapped matrix.
    pub open spec fn is_column(&self) -> bool {
        self.data.n == 1
    }

    /// The number of components.
    pub open spec fn len(&self) -> int {
        if self.data.m == 1 {
            self.data.cols()
        } else {
            self.data.rows()
        }
    }

    /// The components, first to last.
    pub open spec fn vals(&self) -> Seq<T> {
        if self.data.m == 1 {
            Seq::new(self.data.n as nat, |i: int| self.data.ent(0, i))
        } else {
            Seq::new(self.data.m as nat, |i: int| self.data.ent(i, 0))
        }
    }
}

impl<T: Copy> Vector<T> {
    /// Wraps a buffer as a column vector.
    pub fn new_column(data: Vec<T>) -> (r: Self)
        ensures
            r.wf(),
            r.is_column(),
            r.len() == data.len(),
            r.vals() == data@,
            r.data.m == data.len(),
            r.data.n == 1,
    {
        let m = data.len();
        let v = Vector { data: Matrix::new(m, 1, data) };
        proof {
            assert(v.vals() =~= v.data.data@);
        }
        v
    }

    /// Wraps a buffer as a row vector.
    pub fn new_row(data: Vec<T>) -> (r: Self)
        ensures
            r.wf(),
            r.is_row(),
            r.len() == data.len(),
            r.vals() == data@,
            r.data.m == 1,
            r.data.n == data.len(),
    {
        let n = data.len();
        let v = Vector { data: Matrix::new(1, n, data) };
        proof {
            assert(v.vals() =~= v.data.data@);
        }
        v
    }

    /// An owned copy with the same orientation and components.
    pub fn duplicate(&self) -> (r: Self)
        requires
            self.wf(),
        ensures
            r.wf(),
            r.data.m == self.data.m,
            r.data.n == self.data.n,
            r.vals() == self.vals(),
    {
        Vector { data: self.data.duplicate() }
    }

    /// The dimensions of the wrapped matrix, `(rows, columns)`.
    pub fn dim(&self) -> (r: (usize, usize))
        ensures
            r.0 == self.data.m,
            r.1 == self.data.n,
    {
        (self.data.m, self.data.n)
    }

    /// Reads component `i`.
    pub fn get(&self, i: usize) -> (r: T)
        requires
            self.wf(),
            i < self.len(),
        ensures
            r == self.vals()[i as int],
    {
        if self.data.m == 1 {
            self.data.get(0, i)
        } else {
            self.data.get(i, 0)
        }
    }

    /// Writes component `i`, leaving the others and the orientation
    /// unchanged.
    pub fn set(&mut self, i: usize, value: T)
        requires
            old(self).wf(),
            i < old(self).len(),
        ensures
            final(self).wf(),
            final(self).data.m == old(self).data.m,
            final(self).data.n == old(self).data.n,
            final(self).vals() == old(self).vals().update(i as int, value),
    {
        if self.data.m == 1 {
            self.data.set(0, i, value);
        } else {
            self.data.set(i, 0, value);
        }
        proof {
            assert(final(self).vals() =~= old(self).vals().update(i as int, value));
        }
    }

    /// Reorients the vector: a column becomes a row and a row a column,
    /// with the same components.
    pub fn transpose(self) -> (r: Self)
        requires
            self.wf(),
        ensures
            r.wf(),
            r.data.m == self.data.n,
            r.data.n == self.data.m,
            r.len() == self.len(),
            r.vals() == self.vals(),
    {
        proof {
            assert(self.data.cols() * self.data.rows() == self.data.rows() * self.data.cols())
                by (nonlinear_arith);
        }
        let r = Vector { data: Matrix::new(self.data.n, self.data.m, self.data.data) };
        proof {
            assert(r.vals() =~= self.vals());
        }
        r
    }
}

impl<T: Field + Copy> Vector<T> {
    /// Componentwise sum; the orientation of `self` is kept.
    pub fn add(&self, other: &Self) -> (r: Self)
        requires
            self.wf(),
            other.wf(),
            self.data.m == other.data.m,
            self.data.n == other.data.n,
        ensures
            r.wf(),
            r.data.m == self.data.m,
            r.data.n == self.data.n,
            forall|i: int|
                0 <= i < self.len() ==> r.vals()[i] == self.vals()[i].add_spec(other.vals()[i]),
    {
        Vector { data: self.data.add(&other.data) }
    }

    /// Componentwise difference; the orientation of `self` is kept.
    pub fn sub(&self, other: &Self) -> (r: Self)
        requires
            self.wf(),
            other.wf(),
            self.data.m == other.data.m,
            self.data.n == other.data.n,
        ensures
            r.wf(),
            r.data.m == self.data.m,
            r.data.n == self.data.n,
            forall|i: int|
                0 <= i < self.len() ==> r.vals()[i] == self.vals()[i].sub_spec(other.vals()[i]),
    {
        Vector { data: self.data.sub(&other.data) }
    }

    /// Multiplies every component by a scalar.
    pub fn mul_scalar(&self, factor: T) -> (r: Self)
        requires
            self.wf(),
        ensures
            r.wf(),
            r.data.m == self.data.m,
            r.data.n == self.data.n,
            forall|i: int|
                0 <= i < self.len() ==> r.vals()[i] == self.vals()[i].mul_spec(factor),
    {
        Vector { data: self.data.mul_scalar(factor) }
    }

    /// Adds a scalar to every component.
    pub fn add_scalar(&self, addend: T) -> (r: Self)
        requires
            self.wf(),
        ensures
            r.wf(),
            r.data.m == self.data.m,
            r.data.n == self.data.n,
            forall|i: int|
                0 <= i < self.len() ==> r.vals()[i] == self.vals()[i].add_spec(addend),
    {
        Vector { data: self.data.add_scalar(addend) }
    }

    /// Componentwise sum, assigned in place.
    pub fn add_assign(&mut self, other: &Self)
        requires
            old(self).wf(),
            other.wf(),
            old(self).data.m == other.data.m,
            old(self).data.n == other.data.n,
        ensures
            final(self).wf(),
            final(self).data.m == old(self).data.m,
            final(self).data.n == old(self).data.n,
            forall|i: int|
                0 <= i < old(self).len()
                    ==> final(self).vals()[i] == old(self).vals()[i].add_spec(other.vals()[i]),
    {
        let r = self.add(other);
        *self = r;
    }

    /// Adds a scalar to every component, in place.
    pub fn add_assign_scalar(&mut self, addend: T)
        requires
            old(self).wf(),
        ensures
            final(self).wf(),
            final(self).data.m == old(self).data.m,
            final(self).data.n == old(self).data.n,
            forall|i: int|
                0 <= i < old(self).len()
                    ==> final(self).vals()[i] == old(self).vals()[i].add_spec(addend),
    {
        let r = self.add_scalar(addend);
        *self = r;
    }

    /// Negates every component.
    pub fn neg(&self) -> (r: Self)
        requires
            self.wf(),
        ensures
            r.wf(),
            r.data.m == self.data.m,
            r.data.n == self.data.n,
            forall|i: int| 0 <= i < self.len() ==> r.vals()[i] == self.vals()[i].neg_spec(),
    {
        let count = if self.data.m == 1 { self.data.n } else { self.data.m };
        let mut out: Vec<T> = Vec::new();
        let mut i: usize = 0;
        while i < count
            invariant
                i <= count,
                self.wf(),
                count == self.len(),
                out.len() == i,
                forall|i2: int| 0 <= i2 < i ==> out[i2] == self.vals()[i2].neg_spec(),
            decreases count - i,
        {
            let v = self.get(i);
            out.push(v.neg());
            i = i + 1;
        }
        proof {
            lemma_one_dim_product(self.data.rows(), self.data.cols());
        }
        let r = Vector { data: Matrix::new(self.data.m, self.data.n, out) };
        proof {
            assert(r.vals() =~= Seq::new(self.len() as nat, |i: int| self.vals()[i].neg_spec()));
        }
        r
    }

    /// The inner product of two equally long vectors.
    pub fn dotp(&self, other: &Self) -> (r: T)
        requires
            self.wf(),
            other.wf(),
            self.len() == other.len(),
        ensures
            r == dot(self.vals(), other.vals()),
    {
        let count = if self.data.m == 1 { self.data.n } else { self.data.m };
        let mut sum = T::zero();
        let mut k: usize = 0;
        while k < count
            invariant
                k <= count,
                self.wf(),
                other.wf(),
                self.len() == other.len(),
                count == self.len(),
                sum == dot_to(self.vals(), other.vals(), k as int),
            decreases count - k,
        {
            let a = self.get(k);
            let b = other.get(k);
            sum = sum.add(a.mul(b));
            k = k + 1;
        }
        sum
    }
}

impl<T: Scalar + Copy> Vector<T> {
    /// Takes the absolute value of every component.
    pub fn abs(&self) -> (r: Self)
        requires
            self.wf(),
        ensures
            r.wf(),
            r.data.m == self.data.m,
            r.data.n == self.data.n,
            forall|i: int| 0 <= i < self.len() ==> r.vals()[i] == self.vals()[i].abs_spec(),
    {
        let count = if self.data.m == 1 { self.data.n } else { self.data.m };
        let mut out: Vec<T> = Vec::new();
        let mut i: usize = 0;
        while i < count
            invariant
                i <= count,
                self.wf(),
                count == self.len(),
                out.len() == i,
                forall|i2: int| 0 <= i2 < i ==> out[i2] == self.vals()[i2].abs_spec(),
            decreases count - i,
        {
            let v = self.get(i);
            out.push(v.abs());
            i = i + 1;
        }
        proof {
            lemma_one_dim_product(self.data.rows(), self.data.cols());
        }
        let r = Vector { data: Matrix::new(self.data.m, self.data.n, out) };
        proof {
            assert(r.vals() =~= Seq::new(self.len() as nat, |i: int| self.vals()[i].abs_spec()));
        }
        r
    }
}

impl<T: Lattice + Copy> Vector<T> {
    /// The index where the running-maximum scan over the components ends:
    /// the first component no later component strictly exceeds along the
    /// scan.
    pub fn argmax(&self) -> (r: usize)
        requires
            self.wf(),
            self.len() >= 1,
        ensures
            0 <= r < self.len(),
            r as int == argmax_to(self.vals(), self.len()),
    {
        let count = if self.data.m == 1 { self.data.n } else { self.data.m };
        let mut best: usize = 0;
        let mut k: usize = 1;
        while k < count
            invariant
                1 <= k <= count,
                self.wf(),
                count == self.len(),
                best < k,
                best as int == argmax_to(self.vals(), k as int),
            decreases count - k,
        {
            let cur = self.get(best);
            let cand = self.get(k);
            if cur.lt(cand) {
                best = k;
            }
            k = k + 1;
        }
        best
    }
}

impl<T: Field + Identity + Copy> Matrix<T> {
    /// Matrix-vector product with a column vector: component `i` of the
    /// result is the inner product of row `i` and the vector.
    pub fn mul_vec(&self, v: &Vector<T>) -> (r: Vector<T>)
        requires
            self.wf(),
            v.wf(),
            v.is_column(),
            self.n == v.data.m,
        ensures
            r.wf(),
            r.is_column(),
            r.len() == self.m,
            r.data.m == self.m,
            forall|i: int| 0 <= i < self.rows() ==> r.vals()[i] == dot(self.row(i), v.vals()),
    {
        let mut out: Vec<T> = Vec::new();
        let mut i: usize = 0;
        while i < self.m
            invariant
                i <= self.m,
                self.wf(),
                v.wf(),
                v.is_column(),
                self.n == v.data.m,
                out.len() == i,
                forall|i2: int| 0 <= i2 < i ==> out[i2] == dot(self.row(i2), v.vals()),
            decreases self.m - i,
        {
            let mut sum = T::zero();
            let mut k: usize = 0;
            while k < self.n
                invariant
                    i < self.m,
                    k <= self.n,
                    self.wf(),
                    v.wf(),
                    v.is_column(),
                    self.n == v.data.m,
                    sum == dot_to(self.row(i as int), v.vals(), k as int),
                decreases self.n - k,
            {
                let a = self.get(i, k);
                let b = v.get(k);
                sum = sum.add(a.mul(b));
                k = k + 1;
            }
            proof {
                assert(self.row(i as int).len() == self.n as nat);
            }
            out.push(sum);
            i = i + 1;
        }
        Vector::new_column(out)
    }

    /// Column `j`, as a column vector.
    pub fn get_column(&self, j: usize) -> (r: Vector<T>)
        requires
            self.wf(),
            j < self.n,
        ensures
            r.wf(),
            r.is_column(),
            r.len() == self.m,
            r.data.m == self.m,
            r.vals() == self.col(j as int),
    {
        let mut out: Vec<T> = Vec::new();
        let mut i: usize = 0;
        while i < self.m
            invariant
                i <= self.m,
                self.wf(),
                j < self.n,
                out.len() == i,
                forall|i2: int| 0 <= i2 < i ==> out[i2] == self.ent(i2, j as int),
            decreases self.m - i,
        {
            out.push(self.get(i, j));
            i = i + 1;
        }
        let r = Vector::new_column(out);
        proof {
            assert(r.vals() =~= self.col(j as int));
        }
        r
    }

    /// Row `i`, as a row vector.
    pub fn get_row(&self, i: usize) -> (r: Vector<T>)
        requires
            self.wf(),
            i < self.m,
        ensures
            r.wf(),
            r.is_row(),
            r.len() == self.n,
            r.vals() == self.row(i as int),
    {
        let mut out: Vec<T> = Vec::new();
        let mut j: usize = 0;
        while j < self.n
            invariant
                j <= self.n,
                self.wf(),
                i < self.m,
                out.len() == j,
                forall|j2: int| 0 <= j2 < j ==> out[j2] == self.ent(i as int, j2),
            decreases self.n - j,
        {
            out.push(self.get(i, j));
            j = j + 1;
        }
        let r = Vector::new_row(out);
        proof {
            assert(r.vals() =~= self.row(i as int));
        }
        r
    }
}

} // verus!
