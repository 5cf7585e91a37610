//! The ordinary-differential-equation interface: problem descriptors and
//! stepping-method capabilities.
//!
//! A problem hands the integrators its derivative function, its time span
//! and its initial condition (and, for implicit methods, its Jacobian);
//! the descriptors are stateless and queried many times per solve.  Each
//! query is modeled the way the scalar traits model their operations:
//! an abstract specification counterpart (`func_spec`, `span_spec`,
//! `init_spec`, `jacobian_spec`) names what the query returns, and the
//! executable method is pinned to it — the derivative's components equal
//! the modeled derivative's, the span is the modeled span.  An
//! implementation outside this crate is trusted to keep these contracts,
//! exactly as it is trusted to compute the derivative it means; the
//! integrators' own promises hold as far as the problem keeps its word.

use vstd::prelude::*;
use crate::abstr::{Lattice, Real};
use crate::matrix::Matrix;
use crate::vector::Vector;

verus! {

/// A recorded time never exceeds the stop time: either the order places it
/// no later than `t_stop`, or it is the stop time itself (the clipped
/// final step records `t_stop` verbatim).
pub open spec fn within_stop<T: Lattice>(t: T, t_stop: T) -> bool {
    !t_stop.lt_spec(t) || t == t_stop
}

/// An explicit first-order ODE `x' = f(t, x)` with a time span and an
/// initial condition.
pub trait ExplicitODE<T: Real> {
    /// The derivative at `(t, x)`, as an abstract value.
    spec fn func_spec(&self, t: T, x: Vector<T>) -> Vector<T>;

    /// The time span, `(start, stop)`, as an abstract value.
    spec fn span_spec(&self) -> (T, T);

    /// The initial state, as an abstract value.
    spec fn init_spec(&self) -> Vector<T>;

    /// The derivative `f(t, x)`, a column vector of the state's
    /// dimension, with the components of the modeled derivative.
    fn func(&self, t: &T, x: &Vector<T>) -> (r: Vector<T>)
        requires
            x.wf(),
            x.is_column(),
        ensures
            r.wf(),
            r.is_column(),
            r.len() == x.len(),
            r.vals() == self.func_spec(*t, *x).vals(),
    ;

    /// The time span, `(start, stop)`.
    fn time_span(&self) -> (r: (T, T))
        ensures
            r == self.span_spec(),
    ;

    /// The state at the start time, a column vector with the components
    /// of the modeled initial state.
    fn init_cond(&self) -> (r: Vector<T>)
        ensures
            r.wf(),
            r.is_column(),
            r.vals() == self.init_spec().vals(),
    ;
}

/// An implicit first-order ODE: an explicit problem that also carries the
/// Jacobian `df/dx` for the nonlinear solves of implicit stepping.
pub trait ImplicitODE<T: Real> {
    /// The derivative at `(t, x)`, as an abstract value.
    spec fn func_spec(&self, t: T, x: Vector<T>) -> Vector<T>;

    /// The Jacobian at `(t, x)`, as an abstract value.
    spec fn jacobian_spec(&self, t: T, x: Vector<T>) -> Matrix<T>;

    /// The time span, `(start, stop)`, as an abstract value.
    spec fn span_spec(&self) -> (T, T);

    /// The initial state, as an abstract value.
    spec fn init_spec(&self) -> Vector<T>;

    /// The derivative `f(t, x)`, a column vector of the state's
    /// dimension, with the components of the modeled derivative.
    fn func(&self, t: &T, x: &Vector<T>) -> (r: Vector<T>)
        requires
            x.wf(),
            x.is_column(),
        ensures
            r.wf(),
            r.is_column(),
            r.len() == x.len(),
            r.vals() == self.func_spec(*t, *x).vals(),
    ;

    /// The Jacobian `df/dx(t, x)`, a square matrix of the state's
    /// dimension, with the entries of the modeled Jacobian.
    fn jacobian(&self, t: &T, x: &Vector<T>) -> (r: Matrix<T>)
        requires
            x.wf(),
            x.is_column(),
        ensures
            r.wf(),
            r.m == x.len(),
            r.n == x.len(),
            forall|i: int, j: int|
                0 <= i < x.len() && 0 <= j < x.len() ==> r.ent(i, j) == self.jacobian_spec(
                    *t,
                    *x,
                ).ent(i, j),
    ;

    /// The time span, `(start, stop)`.
    fn time_span(&self) -> (r: (T, T))
        ensures
            r == self.span_spec(),
    ;

    /// The state at the start time, a column vector with the components
    /// of the modeled initial state.
    fn init_cond(&self) -> (r: Vector<T>)
        ensures
            r.wf(),
            r.is_column(),
            r.vals() == self.init_spec().vals(),
    ;
}

/// An embedded stepping method: one set of stage evaluations yields two
/// state estimates of different order, whose difference estimates the
/// local error.
pub trait ExplicitAdaptiveMethod<T: Real> {
    /// Proposes one step of size `h` from `(t_n, x_n)`: returns the two
    /// embedded estimates of the next state.
    fn do_step<F: ExplicitODE<T>>(&self, prob: &F, t_n: &T, x_n: &Vector<T>, h: &T) -> (r: (
        Vector<T>,
        Vector<T>,
    ))
        requires
            x_n.wf(),
            x_n.is_column(),
        ensures
            r.0.wf() && r.0.is_column() && r.0.len() == x_n.len(),
            r.1.wf() && r.1.is_column() && r.1.len() == x_n.len(),
    ;

    /// The orders of the two embedded estimates.
    fn order(&self) -> (u8, u8);
}

/// An implicit fixed-step-size stepping method: each step solves a
/// nonlinear equation and may report that the solve did not converge.
pub trait ImplicitFixedStepSizeMethod<T: Real> {
    /// Advances one step of size `h` from `(t_n, x_n)`.
    fn do_step<F: ImplicitODE<T>>(&self, prob: &F, t_n: &T, x_n: &Vector<T>, h: &T) -> (r: Result<
        Vector<T>,
        (),
    >)
        requires
            x_n.wf(),
            x_n.is_column(),
        ensures
            r matches Ok(x) ==> x.wf() && x.is_column() && x.len() == x_n.len(),
    ;

    /// The order of the method.
    fn order(&self) -> u8;
}

} // verus!
