//! Dense column-major matrix storage and its arithmetic.
//!
//! Every operation carries an exact contract over [`Matrix::ent`] and the
//! abstract scalar operations of [`crate::abstr`]: the result entry `(i, j)`
//! is pinned to a spec-level expression in the operand entries.

use vstd::prelude::*;
use crate::abstr::{Field, Identity};

verus! {

/// A dense `m x n` matrix stored column-major: entry `(i, j)` sits at
/// position `j * m + i` of the flat buffer.
///
/// The well-formedness invariant [`Matrix::wf`] (the buffer holds exactly
/// `m * n` entries) is established by every constructor and preserved by
/// every operation.
#[derive(Clone, Debug)]
pub struct Matrix<T> {
    pub m: usize,
    pub n: usize,
    pub data: Vec<T>,
}

/// The inner product of the first `k` component pairs, folded left to right
/// exactly as the executable accumulation loops compute it.
pub open spec fn dot_to<T: Field>(u: Seq<T>, v: Seq<T>, k: int) -> T
    decreases k,
{
    if k <= 0 {
        T::zero_spec()
    } else {
        dot_to(u, v, k - 1).add_spec(u[k - 1].mul_spec(v[k - 1]))
    }
}

/// The inner product of two equally long component sequences.
pub open spec fn dot<T: Field>(u: Seq<T>, v: Seq<T>) -> T {
    dot_to(u, v, u.len() as int)
}

impl<T> Matrix<T> {
    /// The number of rows, as a mathematical integer.
    pub open spec fn rows(&self) -> int {
        self.m as int
    }

    /// The number of columns, as a mathematical integer.
    pub open spec fn cols(&self) -> int {
        self.n as int
    }

    /// Well-formedness: the flat buffer holds exactly `m * n` entries.
    pub open spec fn wf(&self) -> bool {
        self.data.len() == self.rows() * self.cols()
    }

    /// The entry in row `i`, column `j`.
    pub open spec fn ent(&self, i: int, j: int) -> T {
        self.data[j * self.rows() + i]
    }

    /// Row `i` as a component sequence.
    pub open spec fn row(&self, i: int) -> Seq<T> {
        Seq::new(self.n as nat, |j: int| self.ent(i, j))
    }

    /// Column `j` as a component sequence.
    pub open spec fn col(&self, j: int) -> Seq<T> {
        Seq::new(self.m as nat, |i: int| self.ent(i, j))
    }
}

/// Unit lower triangular: every entry strictly above the diagonal is zero
/// and every diagonal entry is one.
pub open spec fn lower_unitriangular<T: Identity>(a: Matrix<T>) -> bool {
    &&& forall|i: int, j: int|
        0 <= i < a.rows() && 0 <= j < a.cols() && i < j ==> a.ent(i, j) == T::zero_spec()
    &&& forall|i: int| 0 <= i < a.rows() && i < a.cols() ==> a.ent(i, i) == T::one_spec()
}

/// Upper triangular: every entry strictly below the diagonal is zero.
pub open spec fn upper_triangular<T: Identity>(a: Matrix<T>) -> bool {
    forall|i: int, j: int|
        0 <= i < a.rows() && 0 <= j < a.cols() && i > j ==> a.ent(i, j) == T::zero_spec()
}

/// `perm` maps each of `0 .. len` to a distinct position in `0 .. len`.
pub open spec fn is_perm_seq(perm: Seq<int>) -> bool {
    &&& forall|k: int| 0 <= k < perm.len() ==> 0 <= #[trigger] perm[k] < perm.len()
    &&& forall|k1: int, k2: int|
        0 <= k1 < k2 < perm.len() ==> #[trigger] perm[k1] != #[trigger] perm[k2]
}

/// `p` is the 0/1 matrix of the permutation `perm`: row `i` holds a one in
/// column `perm[i]` and zeros elsewhere.
pub open spec fn perm_matrix_of<T: Identity>(p: Matrix<T>, perm: Seq<int>) -> bool {
    &&& p.m == p.n
    &&& perm.len() == p.rows()
    &&& is_perm_seq(perm)
    &&& forall|i: int, j: int|
        0 <= i < p.rows() && 0 <= j < p.cols()
            ==> p.ent(i, j) == (if perm[i] == j { T::one_spec() } else { T::zero_spec() })
}

/// `p` is a permutation matrix: exactly one one in every row and every
/// column, zeros elsewhere.
pub open spec fn is_perm_matrix<T: Identity>(p: Matrix<T>) -> bool {
    exists|perm: Seq<int>| perm_matrix_of(p, perm)
}

/// The product of an `m x n` matrix and a column of `n` components, as a
/// component sequence.
pub open spec fn matvec_seq<T: Field>(a: Matrix<T>, b: Seq<T>) -> Seq<T> {
    Seq::new(a.m as nat, |i: int| dot(a.row(i), b))
}

/// The flat position of entry `(i, j)` lies inside an `m x n` buffer.
pub proof fn lemma_flat_index(i: int, j: int, m: int, n: int)
    requires
        0 <= i < m,
        0 <= j < n,
    ensures
        0 <= j * m + i < n * m,
        0 <= j * m + i < m * n,
{
    assert(0 <= j * m + i < n * m && n * m == m * n) by (nonlinear_arith)
        requires
            0 <= i < m,
            0 <= j < n,
    ;
}

/// Distinct index pairs occupy distinct flat positions.
pub proof fn lemma_flat_index_ne(i1: int, j1: int, i2: int, j2: int, m: int, n: int)
    requires
        0 <= i1 < m,
        0 <= j1 < n,
        0 <= i2 < m,
        0 <= j2 < n,
        !(i1 == i2 && j1 == j2),
    ensures
        j1 * m + i1 != j2 * m + i2,
{
    assert(j1 * m + i1 != j2 * m + i2) by (nonlinear_arith)
        requires
            0 <= i1 < m,
            0 <= j1 < n,
            0 <= i2 < m,
            0 <= j2 < n,
            !(i1 == i2 && j1 == j2),
    ;
}

impl<T: Copy> Matrix<T> {
    /// Wraps a flat column-major buffer as a matrix.
    pub fn new(m: usize, n: usize, data: Vec<T>) -> (r: Self)
        requires
            data.len() == m * n,
        ensures
            r.wf(),
            r.m == m,
            r.n == n,
            r.data == data,
    {
        Matrix { m, n, data }
    }

    /// The dimensions, `(rows, columns)`.
    pub fn dim(&self) -> (r: (usize, usize))
        ensures
            r.0 == self.m,
            r.1 == self.n,
    {
        (self.m, self.n)
    }

    /// The number of rows.
    pub fn nrow(&self) -> (r: usize)
        ensures
            r == self.m,
    {
        self.m
    }

    /// The number of columns.
    pub fn ncol(&self) -> (r: usize)
        ensures
            r == self.n,
    {
        self.n
    }

    /// Reads the entry in row `i`, column `j`.
    pub fn get(&self, i: usize, j: usize) -> (r: T)
        requires
            self.wf(),
            i < self.m,
            j < self.n,
        ensures
            r == self.ent(i as int, j as int),
    {
        proof {
            lemma_flat_index(i as int, j as int, self.rows(), self.cols());
        }
        self.data[j * self.m + i]
    }

    /// An owned copy with the same dimensions and entries.  (The derived
    /// `Clone` serves unverified callers; verified code uses this copy,
    /// whose contract pins the result.)
    pub fn duplicate(&self) -> (r: Self)
        requires
            self.wf(),
        ensures
            r.wf(),
            r.m == self.m,
            r.n == self.n,
            r.data@ == self.data@,
            forall|i: int, j: int|
                0 <= i < self.rows() && 0 <= j < self.cols() ==> r.ent(i, j) == self.ent(i, j),
    {
        let total = self.data.len();
        let mut data: Vec<T> = Vec::new();
        let mut k: usize = 0;
        while k < total
            invariant
                k <= total,
                total == self.data.len(),
                data.len() == k,
                forall|k2: int| 0 <= k2 < k ==> data[k2] == self.data[k2],
            decreases total - k,
        {
            data.push(self.data[k]);
            k = k + 1;
        }
        proof {
            assert(data@ =~= self.data@);
        }
        Matrix { m: self.m, n: self.n, data }
    }

    /// Writes the entry in row `i`, column `j`, leaving every other entry
    /// unchanged.
    pub fn set(&mut self, i: usize, j: usize, value: T)
        requires
            old(self).wf(),
            i < old(self).m,
            j < old(self).n,
        ensures
            final(self).wf(),
            final(self).m == old(self).m,
            final(self).n == old(self).n,
            final(self).ent(i as int, j as int) == value,
            forall|i2: int, j2: int|
                0 <= i2 < old(self).rows() && 0 <= j2 < old(self).cols()
                    && !(i2 == i as int && j2 == j as int)
                    ==> final(self).ent(i2, j2) == old(self).ent(i2, j2),
    {
        proof {
            lemma_flat_index(i as int, j as int, self.rows(), self.cols());
        }
        let idx = j * self.m + i;
        self.data.set(idx, value);
        proof {
            assert forall|i2: int, j2: int|
                0 <= i2 < old(self).rows() && 0 <= j2 < old(self).cols()
                    && !(i2 == i as int && j2 == j as int)
                implies final(self).ent(i2, j2) == old(self).ent(i2, j2) by {
                lemma_flat_index(i2, j2, old(self).rows(), old(self).cols());
                lemma_flat_index_ne(
                    i2, j2, i as int, j as int, old(self).rows(), old(self).cols(),
                );
            }
        }
    }
}

impl<T: Identity + Copy> Matrix<T> {
    /// The `m x n` matrix of zeros.
    pub fn zero(m: usize, n: usize) -> (r: Self)
        requires
            m * n <= usize::MAX,
        ensures
            r.wf(),
            r.m == m,
            r.n == n,
            forall|i: int, j: int|
                0 <= i < m && 0 <= j < n ==> r.ent(i, j) == T::zero_spec(),
    {
        let total = m * n;
        let mut data: Vec<T> = Vec::new();
        while data.len() < total
            invariant
                data.len() <= total,
                forall|k: int| 0 <= k < data.len() ==> data[k] == T::zero_spec(),
            decreases total - data.len(),
        {
            data.push(T::zero());
        }
        let r = Matrix { m, n, data };
        proof {
            assert forall|i: int, j: int| 0 <= i < m && 0 <= j < n
                implies r.ent(i, j) == T::zero_spec() by {
                lemma_flat_index(i, j, m as int, n as int);
            }
        }
        r
    }

    /// The `size x size` identity matrix.
    pub fn one(size: usize) -> (r: Self)
        requires
            size * size <= usize::MAX,
        ensures
            r.wf(),
            r.m == size,
            r.n == size,
            forall|i: int, j: int|
                0 <= i < size && 0 <= j < size
                    ==> r.ent(i, j) == (if i == j { T::one_spec() } else { T::zero_spec() }),
    {
        let mut r = Self::zero(size, size);
        let mut k: usize = 0;
        while k < size
            invariant
                k <= size,
                r.wf(),
                r.m == size,
                r.n == size,
                forall|i: int, j: int|
                    0 <= i < size && 0 <= j < size
                        ==> r.ent(i, j)
                            == (if i == j && i < k { T::one_spec() } else { T::zero_spec() }),
            decreases size - k,
        {
            r.set(k, k, T::one());
            k = k + 1;
        }
        r
    }
}

impl<T: Copy> Matrix<T> {
    /// Swaps rows `r1` and `r2` in the columns `0 .. jend`, leaving the
    /// remaining columns untouched.
    pub fn swap_rows_partial(&mut self, r1: usize, r2: usize, jend: usize)
        requires
            old(self).wf(),
            r1 < old(self).m,
            r2 < old(self).m,
            jend <= old(self).n,
        ensures
            final(self).wf(),
            final(self).m == old(self).m,
            final(self).n == old(self).n,
            forall|i: int, j: int|
                0 <= i < old(self).rows() && 0 <= j < old(self).cols()
                    ==> final(self).ent(i, j)
                        == (if j < jend && i == r1 as int {
                                old(self).ent(r2 as int, j)
                            } else if j < jend && i == r2 as int {
                                old(self).ent(r1 as int, j)
                            } else {
                                old(self).ent(i, j)
                            }),
    {
        let mut j: usize = 0;
        while j < jend
            invariant
                j <= jend,
                jend <= old(self).n,
                r1 < old(self).m,
                r2 < old(self).m,
                self.wf(),
                self.m == old(self).m,
                self.n == old(self).n,
                forall|i2: int, j2: int|
                    0 <= i2 < old(self).rows() && 0 <= j2 < old(self).cols()
                        ==> self.ent(i2, j2)
                            == (if j2 < j && i2 == r1 as int {
                                    old(self).ent(r2 as int, j2)
                                } else if j2 < j && i2 == r2 as int {
                                    old(self).ent(r1 as int, j2)
                                } else {
                                    old(self).ent(i2, j2)
                                }),
            decreases jend - j,
        {
            let a = self.get(r1, j);
            let b = self.get(r2, j);
            self.set(r1, j, b);
            self.set(r2, j, a);
            j = j + 1;
        }
    }

    /// Swaps rows `r1` and `r2`.
    pub fn swap_rows(&mut self, r1: usize, r2: usize)
        requires
            old(self).wf(),
            r1 < old(self).m,
            r2 < old(self).m,
        ensures
            final(self).wf(),
            final(self).m == old(self).m,
            final(self).n == old(self).n,
            forall|i: int, j: int|
                0 <= i < old(self).rows() && 0 <= j < old(self).cols()
                    ==> final(self).ent(i, j)
                        == (if i == r1 as int {
                                old(self).ent(r2 as int, j)
                            } else if i == r2 as int {
                                old(self).ent(r1 as int, j)
                            } else {
                                old(self).ent(i, j)
                            }),
    {
        let jend = self.n;
        self.swap_rows_partial(r1, r2, jend);
    }
}

impl<T: Identity + Copy> Matrix<T> {
    /// The transpose.
    pub fn transpose(&self) -> (r: Self)
        requires
            self.wf(),
        ensures
            r.wf(),
            r.m == self.n,
            r.n == self.m,
            forall|i: int, j: int|
                0 <= i < self.cols() && 0 <= j < self.rows()
                    ==> r.ent(i, j) == self.ent(j, i),
    {
        proof {
            assert(self.cols() * self.rows() == self.rows() * self.cols()) by (nonlinear_arith);
        }
        let mut r = Self::zero(self.n, self.m);
        let mut i: usize = 0;
        while i < self.n
            invariant
                i <= self.n,
                self.wf(),
                r.wf(),
                r.m == self.n,
                r.n == self.m,
                forall|i2: int, j2: int|
                    0 <= i2 < self.cols() && 0 <= j2 < self.rows() && i2 < i
                        ==> r.ent(i2, j2) == self.ent(j2, i2),
            decreases self.n - i,
        {
            let mut j: usize = 0;
            while j < self.m
                invariant
                    i < self.n,
                    j <= self.m,
                    self.wf(),
                    r.wf(),
                    r.m == self.n,
                    r.n == self.m,
                    forall|i2: int, j2: int|
                        0 <= i2 < self.cols() && 0 <= j2 < self.rows() && i2 < i
                            ==> r.ent(i2, j2) == self.ent(j2, i2),
                    forall|j2: int|
                        0 <= j2 < j ==> r.ent(i as int, j2) == self.ent(j2, i as int),
                decreases self.m - j,
            {
                let v = self.get(j, i);
                r.set(i, j, v);
                j = j + 1;
            }
            i = i + 1;
        }
        r
    }
}

impl<T: Identity + Copy> Matrix<T> {
    /// The top-left `rows x cols` block, entry for entry.
    pub fn submatrix_top_left(&self, rows: usize, cols: usize) -> (r: Self)
        requires
            self.wf(),
            rows <= self.m,
            cols <= self.n,
        ensures
            r.wf(),
            r.m == rows,
            r.n == cols,
            forall|i: int, j: int|
                0 <= i < rows && 0 <= j < cols ==> r.ent(i, j) == self.ent(i, j),
    {
        proof {
            assert(rows * cols <= usize::MAX) by (nonlinear_arith)
                requires
                    self.data.len() == self.rows() * self.cols(),
                    rows <= self.rows(),
                    cols <= self.cols(),
            ;
        }
        let mut r = Self::zero(rows, cols);
        let mut i: usize = 0;
        while i < rows
            invariant
                i <= rows,
                rows <= self.m,
                cols <= self.n,
                self.wf(),
                r.wf(),
                r.m == rows,
                r.n == cols,
                forall|i2: int, j2: int|
                    0 <= i2 < i && 0 <= j2 < cols ==> r.ent(i2, j2) == self.ent(i2, j2),
            decreases rows - i,
        {
            let mut j: usize = 0;
            while j < cols
                invariant
                    i < rows,
                    j <= cols,
                    rows <= self.m,
                    cols <= self.n,
                    self.wf(),
                    r.wf(),
                    r.m == rows,
                    r.n == cols,
                    forall|i2: int, j2: int|
                        0 <= i2 < i && 0 <= j2 < cols ==> r.ent(i2, j2) == self.ent(i2, j2),
                    forall|j2: int| 0 <= j2 < j ==> r.ent(i as int, j2) == self.ent(i as int, j2),
                decreases cols - j,
            {
                let v = self.get(i, j);
                r.set(i, j, v);
                j = j + 1;
            }
            i = i + 1;
        }
        r
    }
}

impl<T: Field + Copy> Matrix<T> {
    /// Entrywise sum.
    pub fn add(&self, other: &Self) -> (r: Self)
        requires
            self.wf(),
            other.wf(),
            self.m == other.m,
            self.n == other.n,
        ensures
            r.wf(),
            r.m == self.m,
            r.n == self.n,
            forall|i: int, j: int|
                0 <= i < self.rows() && 0 <= j < self.cols()
                    ==> r.ent(i, j) == self.ent(i, j).add_spec(other.ent(i, j)),
    {
        let total = self.data.len();
        let mut data: Vec<T> = Vec::new();
        let mut k: usize = 0;
        while k < total
            invariant
                k <= total,
                total == self.data.len(),
                self.wf(),
                other.wf(),
                self.m == other.m,
                self.n == other.n,
                data.len() == k,
                forall|k2: int|
                    0 <= k2 < k ==> data[k2] == self.data[k2].add_spec(other.data[k2]),
            decreases total - k,
        {
            let a = self.data[k];
            let b = other.data[k];
            data.push(a.add(b));
            k = k + 1;
        }
        let r = Matrix { m: self.m, n: self.n, data };
        proof {
            assert forall|i: int, j: int| 0 <= i < self.rows() && 0 <= j < self.cols()
                implies r.ent(i, j) == self.ent(i, j).add_spec(other.ent(i, j)) by {
                lemma_flat_index(i, j, self.rows(), self.cols());
            }
        }
        r
    }

    /// Entrywise difference.
    pub fn sub(&self, other: &Self) -> (r: Self)
        requires
            self.wf(),
            other.wf(),
            self.m == other.m,
            self.n == other.n,
        ensures
            r.wf(),
            r.m == self.m,
            r.n == self.n,
            forall|i: int, j: int|
                0 <= i < self.rows() && 0 <= j < self.cols()
                    ==> r.ent(i, j) == self.ent(i, j).sub_spec(other.ent(i, j)),
    {
        let total = self.data.len();
        let mut data: Vec<T> = Vec::new();
        let mut k: usize = 0;
        while k < total
            invariant
                k <= total,
                total == self.data.len(),
                self.wf(),
                other.wf(),
                self.m == other.m,
                self.n == other.n,
                data.len() == k,
                forall|k2: int|
                    0 <= k2 < k ==> data[k2] == self.data[k2].sub_spec(other.data[k2]),
            decreases total - k,
        {
            let a = self.data[k];
            let b = other.data[k];
            data.push(a.sub(b));
            k = k + 1;
        }
        let r = Matrix { m: self.m, n: self.n, data };
        proof {
            assert forall|i: int, j: int| 0 <= i < self.rows() && 0 <= j < self.cols()
                implies r.ent(i, j) == self.ent(i, j).sub_spec(other.ent(i, j)) by {
                lemma_flat_index(i, j, self.rows(), self.cols());
            }
        }
        r
    }

    /// Multiplies every entry by the scalar `k`.
    pub fn mul_scalar(&self, factor: T) -> (r: Self)
        requires
            self.wf(),
        ensures
            r.wf(),
            r.m == self.m,
            r.n == self.n,
            forall|i: int, j: int|
                0 <= i < self.rows() && 0 <= j < self.cols()
                    ==> r.ent(i, j) == self.ent(i, j).mul_spec(factor),
    {
        let total = self.data.len();
        let mut data: Vec<T> = Vec::new();
        let mut k: usize = 0;
        while k < total
            invariant
                k <= total,
                total == self.data.len(),
                self.wf(),
                data.len() == k,
                forall|k2: int| 0 <= k2 < k ==> data[k2] == self.data[k2].mul_spec(factor),
            decreases total - k,
        {
            let a = self.data[k];
            data.push(a.mul(factor));
            k = k + 1;
        }
        let r = Matrix { m: self.m, n: self.n, data };
        proof {
            assert forall|i: int, j: int| 0 <= i < self.rows() && 0 <= j < self.cols()
                implies r.ent(i, j) == self.ent(i, j).mul_spec(factor) by {
                lemma_flat_index(i, j, self.rows(), self.cols());
            }
        }
        r
    }

    /// Adds the scalar `k` to every entry.
    pub fn add_scalar(&self, addend: T) -> (r: Self)
        requires
            self.wf(),
        ensures
            r.wf(),
            r.m == self.m,
            r.n == self.n,
            forall|i: int, j: int|
                0 <= i < self.rows() && 0 <= j < self.cols()
                    ==> r.ent(i, j) == self.ent(i, j).add_spec(addend),
    {
        let total = self.data.len();
        let mut data: Vec<T> = Vec::new();
        let mut k: usize = 0;
        while k < total
            invariant
                k <= total,
                total == self.data.len(),
                self.wf(),
                data.len() == k,
                forall|k2: int| 0 <= k2 < k ==> data[k2] == self.data[k2].add_spec(addend),
            decreases total - k,
        {
            let a = self.data[k];
            data.push(a.add(addend));
            k = k + 1;
        }
        let r = Matrix { m: self.m, n: self.n, data };
        proof {
            assert forall|i: int, j: int| 0 <= i < self.rows() && 0 <= j < self.cols()
                implies r.ent(i, j) == self.ent(i, j).add_spec(addend) by {
                lemma_flat_index(i, j, self.rows(), self.cols());
            }
        }
        r
    }

    /// Entrywise sum, assigned in place.
    pub fn add_assign(&mut self, other: &Self)
        requires
            old(self).wf(),
            other.wf(),
            old(self).m == other.m,
            old(self).n == other.n,
        ensures
            final(self).wf(),
            final(self).m == old(self).m,
            final(self).n == old(self).n,
            forall|i: int, j: int|
                0 <= i < old(self).rows() && 0 <= j < old(self).cols()
                    ==> final(self).ent(i, j) == old(self).ent(i, j).add_spec(other.ent(i, j)),
    {
        let r = self.add(other);
        *self = r;
    }

    /// Adds the scalar `k` to every entry, in place.
    pub fn add_assign_scalar(&mut self, addend: T)
        requires
            old(self).wf(),
        ensures
            final(self).wf(),
            final(self).m == old(self).m,
            final(self).n == old(self).n,
            forall|i: int, j: int|
                0 <= i < old(self).rows() && 0 <= j < old(self).cols()
                    ==> final(self).ent(i, j) == old(self).ent(i, j).add_spec(addend),
    {
        let r = self.add_scalar(addend);
        *self = r;
    }
}

impl<T: Field + Identity + Copy> Matrix<T> {
    /// Matrix product: entry `(i, j)` of the result is the inner product of
    /// row `i` of `self` and column `j` of `rhs`.
    pub fn mul(&self, rhs: &Self) -> (r: Self)
        requires
            self.wf(),
            rhs.wf(),
            self.n == rhs.m,
            self.m * rhs.n <= usize::MAX,
        ensures
            r.wf(),
            r.m == self.m,
            r.n == rhs.n,
            forall|i: int, j: int|
                0 <= i < self.rows() && 0 <= j < rhs.cols()
                    ==> r.ent(i, j) == dot(self.row(i), rhs.col(j)),
    {
        let mut prod = Self::zero(self.m, rhs.n);
        let mut i: usize = 0;
        while i < self.m
            invariant
                i <= self.m,
                self.wf(),
                rhs.wf(),
                self.n == rhs.m,
                prod.wf(),
                prod.m == self.m,
                prod.n == rhs.n,
                forall|i2: int, j2: int|
                    0 <= i2 < i && 0 <= j2 < rhs.cols()
                        ==> prod.ent(i2, j2) == dot(self.row(i2), rhs.col(j2)),
            decreases self.m - i,
        {
            let mut j: usize = 0;
            while j < rhs.n
                invariant
                    i < self.m,
                    j <= rhs.n,
                    self.wf(),
                    rhs.wf(),
                    self.n == rhs.m,
                    prod.wf(),
                    prod.m == self.m,
                    prod.n == rhs.n,
                    forall|i2: int, j2: int|
                        0 <= i2 < i && 0 <= j2 < rhs.cols()
                            ==> prod.ent(i2, j2) == dot(self.row(i2), rhs.col(j2)),
                    forall|j2: int|
                        0 <= j2 < j ==> prod.ent(i as int, j2) == dot(self.row(i as int), rhs.col(j2)),
                decreases rhs.n - j,
            {
                let mut sum = T::zero();
                let mut k: usize = 0;
                while k < self.n
                    invariant
                        i < self.m,
                        j < rhs.n,
                        k <= self.n,
                        self.wf(),
                        rhs.wf(),
                        self.n == rhs.m,
                        sum == dot_to(self.row(i as int), rhs.col(j as int), k as int),
                    decreases self.n - k,
                {
                    let a = self.get(i, k);
                    let b = rhs.get(k, j);
                    sum = sum.add(a.mul(b));
                    k = k + 1;
                }
                prod.set(i, j, sum);
                j = j + 1;
            }
            i = i + 1;
        }
        prod
    }
}

} // verus!
