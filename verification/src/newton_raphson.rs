//! Newton-Raphson root finding for vector-valued functions.
//!
//! Each iteration solves the linearized system `J(x) d = f(x)` and steps
//! to `x - d`; the search stops as soon as the Euclidean length of the
//! update compares within the absolute tolerance, and reports failure if
//! the iteration budget runs out first.

use vstd::prelude::*;
use crate::abstr::{Field, Lattice, Real};
use crate::jacobian::Jacobian;
use crate::solve::Solve;
use crate::vector::Vector;

verus! {

/// Newton-Raphson root finder: an iteration budget and an absolute
/// tolerance on the update length.
pub struct NewtonRaphson<T> {
    pub iters: u64,
    pub tol: T,
}

impl<T: Copy> Clone for NewtonRaphson<T> {
    fn clone(&self) -> (r: Self)
        ensures
            r.iters == self.iters,
            r.tol == self.tol,
    {
        NewtonRaphson { iters: self.iters, tol: self.tol }
    }
}

impl<T: Copy> Copy for NewtonRaphson<T> {

}

impl<T: Real> NewtonRaphson<T> {
    /// Bundles the configuration.
    pub fn new(iters: u64, tol: T) -> (r: NewtonRaphson<T>)
        ensures
            r.iters == iters,
            r.tol == tol,
    {
        NewtonRaphson { iters, tol }
    }

    /// Searches for a root of `func` from the start point `x_0`.
    ///
    /// `Ok` carries the first iterate whose update length compared within
    /// the tolerance: the returned point is the previous iterate moved by
    /// an update whose Euclidean length compares within `tol`.  `Err`
    /// reports that the budget was exhausted without convergence, or that
    /// a linearized system was numerically singular; an empty budget can
    /// only report `Err`.  Whether the search converges is the business
    /// of the supplied function.
    pub fn find_root<F: Jacobian<T>>(&self, func: &F, x_0: &Vector<T>) -> (r: Result<
        Vector<T>,
        (),
    >)
        requires
            x_0.wf(),
            x_0.is_column(),
        ensures
            r matches Ok(x) ==> x.wf() && x.is_column() && x.len() == x_0.len(),
            self.iters == 0 ==> r.is_err(),
            r matches Ok(x) ==> exists|prev: Seq<T>, delta: Seq<T>|
                {
                    &&& prev.len() == x_0.len()
                    &&& delta.len() == x_0.len()
                    &&& x.vals() == Seq::new(
                        x_0.len() as nat,
                        |i: int| prev[i].sub_spec(delta[i]),
                    )
                    &&& crate::matrix::dot(delta, delta).sqrt_spec().le_spec(self.tol)
                },
    {
        let mut x = x_0.duplicate();
        let mut k: u64 = 0;
        while k < self.iters
            invariant
                k <= self.iters,
                x.wf() && x.is_column() && x.len() == x_0.len(),
            decreases self.iters - k,
        {
            let f_x = func.eval(&x);
            let jac = func.jacobian(&x);
            let delta = match jac.solve(&f_x) {
                Some(d) => d,
                None => {
                    return Err(());
                },
            };
            let ghost prev = x.vals();
            x = x.sub(&delta);
            let norm = delta.dotp(&delta).sqrt();
            if norm.le(self.tol) {
                proof {
                    assert(x.vals() =~= Seq::new(
                        x_0.len() as nat,
                        |i: int| prev[i].sub_spec(delta.vals()[i]),
                    ));
                }
                return Ok(x);
            }
            k = k + 1;
        }
        Err(())
    }
}

} // verus!
