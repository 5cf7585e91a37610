//! The function and Jacobian capabilities consumed by the root finder: a
//! vector-valued function of a vector, and its matrix of partial
//! derivatives.  The contracts are relative — the value has the
//! argument's dimension, the Jacobian is square in it — and an
//! implementation outside this crate is trusted to keep them.

use vstd::prelude::*;
use crate::abstr::Real;
use crate::matrix::Matrix;
use crate::vector::Vector;

verus! {

/// A vector-valued function of a vector argument of the same dimension.
pub trait Function<T: Real> {
    /// Evaluates the function.
    fn eval(&self, x: &Vector<T>) -> (r: Vector<T>)
        requires
            x.wf(),
            x.is_column(),
        ensures
            r.wf(),
            r.is_column(),
            r.len() == x.len(),
    ;
}

/// A function that also carries its Jacobian, the square matrix of
/// partial derivatives at a point.
pub trait Jacobian<T: Real>: Function<T> {
    /// The Jacobian at `input`.
    fn jacobian(&self, input: &Vector<T>) -> (r: Matrix<T>)
        requires
            input.wf(),
            input.is_column(),
        ensures
            r.wf(),
            r.m == input.len(),
            r.n == input.len(),
    ;
}

} // verus!
