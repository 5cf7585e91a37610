//! The backward (implicit) Euler method.
//!
//! Each step solves `x_{n+1} = x_n + h * f(t_{n+1}, x_{n+1})` for the
//! unknown next state.  The residual `g(z) = x_n + h * f(t_{n+1}, z) - z`
//! and its Jacobian `h * df/dz - I` are bundled into a private adapter
//! built fresh for every step, and handed to the Newton-Raphson root
//! finder; a solve that does not converge surfaces as an error from the
//! step and aborts the integration.

use vstd::prelude::*;
use crate::abstr::{ratio, ratio_spec, Field, Identity, Real};
use crate::fixed_stepper::ImplicitFixedStepper;
use crate::jacobian::{Function, Jacobian};
use crate::matrix::Matrix;
use crate::newton_raphson::NewtonRaphson;
use crate::ode::{ImplicitFixedStepSizeMethod, ImplicitODE};
use crate::vector::Vector;

verus! {

/// The backward Euler residual `x + h * f - z`, componentwise, for the
/// derivative value `f` the problem returned.
pub open spec fn euler_residual<T: Real>(x: Seq<T>, h: T, f: Seq<T>, z: Seq<T>) -> Seq<T> {
    Seq::new(z.len(), |i: int| x[i].add_spec(f[i].mul_spec(h)).sub_spec(z[i]))
}

/// The degenerate residual `h * f - z` a mismatched query falls back to.
pub open spec fn euler_residual_degenerate<T: Real>(h: T, f: Seq<T>, z: Seq<T>) -> Seq<T> {
    Seq::new(z.len(), |i: int| f[i].mul_spec(h).sub_spec(z[i]))
}

/// Backward Euler: a fixed stepper and an embedded root finder with one
/// hundred iterations and an absolute tolerance of `1e-8`.
pub struct ImplicitEuler<T> {
    pub stepper: ImplicitFixedStepper<T>,
    pub root_finder: NewtonRaphson<T>,
}

impl<T: Copy> Clone for ImplicitEuler<T> {
    fn clone(&self) -> (r: Self)
        ensures
            r.stepper == self.stepper,
            r.root_finder.iters == self.root_finder.iters,
            r.root_finder.tol == self.root_finder.tol,
    {
        ImplicitEuler {
            stepper: self.stepper,
            root_finder: NewtonRaphson { iters: self.root_finder.iters, tol: self.root_finder.tol },
        }
    }
}

impl<T: Copy> Copy for ImplicitEuler<T> {

}

impl<T: Real> ImplicitEuler<T> {
    /// Creates a backward Euler instance with the given step size.
    pub fn new(step_size: T) -> (r: ImplicitEuler<T>)
        ensures
            r.stepper.step_size == step_size,
            r.root_finder.iters == 100u64,
            r.root_finder.tol == ratio_spec::<T>(1, 100000000),
    {
        ImplicitEuler {
            stepper: ImplicitFixedStepper::new(step_size),
            root_finder: NewtonRaphson::new(100, ratio(1, 100000000)),
        }
    }

    /// Integrates `prob` with backward Euler steps.  The promises mirror
    /// the fixed stepper's, against the problem's modeled span and
    /// initial state: the trajectory starts at the span's start with the
    /// initial state, each later recorded time advances the previous one
    /// by the step size except a final clipped step, and no recorded
    /// time exceeds the stop time.  An inverted span is rejected.
    pub fn solve<F: ImplicitODE<T>>(&self, prob: &F) -> (r: Result<(Vec<T>, Vec<Vector<T>>), ()>)
        ensures
            prob.span_spec().1.lt_spec(prob.span_spec().0) ==> r.is_err(),
            r matches Ok(out) ==> {
                &&& out.0.len() == out.1.len()
                &&& out.0.len() >= 1
                &&& out.0[0] == prob.span_spec().0
                &&& out.1[0].vals() == prob.init_spec().vals()
                &&& forall|k: int|
                    0 <= k < out.0.len() ==> crate::ode::within_stop(
                        #[trigger] out.0[k],
                        prob.span_spec().1,
                    )
                &&& forall|k: int|
                    1 <= k < out.0.len() ==> (#[trigger] out.0[k]) == out.0[k - 1].add_spec(
                        self.stepper.step_size,
                    ) || out.0[k] == prob.span_spec().1
                &&& forall|k: int|
                    0 <= k < out.1.len() ==> (#[trigger] out.1[k]).wf() && out.1[k].is_column()
                        && out.1[k].len() == prob.init_spec().vals().len()
            },
    {
        self.stepper.solve(prob, self)
    }

    /// The step size.
    pub fn get_step_size(&self) -> (r: T)
        ensures
            r == self.stepper.step_size,
    {
        self.stepper.get_step_size()
    }

    /// Sets the step size.
    pub fn set_step_size(&mut self, step_size: T)
        ensures
            final(self).stepper.step_size == step_size,
    {
        self.stepper.set_step_size(step_size);
    }
}

impl<T: Real> ImplicitFixedStepSizeMethod<T> for ImplicitEuler<T> {
    /// Beyond the trait's shape promises: the step is the root finder's
    /// search on the backward Euler residual from the current state, so
    /// an empty root-finder budget can only fail, and a successful step
    /// is an iterate whose last update's length compared within the
    /// root finder's tolerance.
    fn do_step<F: ImplicitODE<T>>(&self, prob: &F, t_n: &T, x_n: &Vector<T>, h: &T) -> (r: Result<
        Vector<T>,
        (),
    >)
        ensures
            self.root_finder.iters == 0 ==> r.is_err(),
            r matches Ok(x) ==> exists|prev: Seq<T>, delta: Seq<T>|
                {
                    &&& prev.len() == x_n.len()
                    &&& delta.len() == x_n.len()
                    &&& x.vals() == Seq::new(
                        x_n.len() as nat,
                        |i: int| prev[i].sub_spec(delta[i]),
                    )
                    &&& crate::matrix::dot(delta, delta).sqrt_spec().le_spec(
                        self.root_finder.tol,
                    )
                },
    {
        let t = t_n.add(*h);
        let helper = ImplicitEulerHelper::new(prob, t, x_n, *h);
        self.root_finder.find_root(&helper, x_n)
    }

    /// Euler's method is a first-order method.
    fn order(&self) -> u8 {
        1
    }
}

/// The per-step adapter: presents the backward Euler residual and its
/// Jacobian through the root finder's capabilities without exposing them
/// beyond the step.
pub struct ImplicitEulerHelper<'a, T, F> {
    pub function: &'a F,
    pub t: T,
    pub x: &'a Vector<T>,
    pub h: T,
}

impl<'a, T: Real, F: ImplicitODE<T>> ImplicitEulerHelper<'a, T, F> {
    /// Captures the step's local state.
    pub fn new(function: &'a F, t: T, x: &'a Vector<T>, h: T) -> (r: ImplicitEulerHelper<'a, T, F>)
        ensures
            r.function == function,
            r.t == t,
            r.x == x,
            r.h == h,
    {
        ImplicitEulerHelper { function, t, x, h }
    }
}

impl<'a, T: Real, F: ImplicitODE<T>> Function<T> for ImplicitEulerHelper<'a, T, F> {
    /// The residual `g(z) = x + h * f(t, z) - z`, pinned componentwise
    /// to the problem's modeled derivative at `(t, z)`.  (A query whose
    /// dimension differs from the captured state's — which the root
    /// finder never makes — degenerates to `h * f(t, z) - z`, keeping
    /// the contract total.)
    fn eval(&self, z: &Vector<T>) -> (r: Vector<T>)
        ensures
            self.x.wf() && self.x.is_column() && self.x.len() == z.len() ==> r.vals()
                == euler_residual(
                self.x.vals(),
                self.h,
                self.function.func_spec(self.t, *z).vals(),
                z.vals(),
            ),
            !(self.x.wf() && self.x.is_column() && self.x.len() == z.len()) ==> r.vals()
                == euler_residual_degenerate(
                self.h,
                self.function.func_spec(self.t, *z).vals(),
                z.vals(),
            ),
    {
        let fz = self.function.func(&self.t, z);
        let scaled = fz.mul_scalar(self.h);
        let (xm, xn) = self.x.dim();
        let (zm, _zn) = z.dim();
        if xn == 1 && xm == zm && self.x.data.data.len() == xm {
            proof {
                assert(self.x.data.rows() * 1 == self.x.data.rows());
            }
            let out = self.x.add(&scaled).sub(z);
            proof {
                assert(out.vals() =~= euler_residual(self.x.vals(), self.h, fz.vals(), z.vals()));
            }
            out
        } else {
            let out = scaled.sub(z);
            proof {
                assert(!(self.x.wf() && self.x.is_column() && self.x.len() == z.len()));
                assert(out.vals() =~= euler_residual_degenerate(self.h, fz.vals(), z.vals()));
            }
            out
        }
    }
}

impl<'a, T: Real, F: ImplicitODE<T>> Jacobian<T> for ImplicitEulerHelper<'a, T, F> {
    /// The residual's Jacobian `h * df/dz - I`, pinned entry for entry
    /// to the problem's modeled Jacobian at `(t, z)`.
    fn jacobian(&self, z: &Vector<T>) -> (r: Matrix<T>)
        ensures
            forall|i: int, j: int|
                0 <= i < z.len() && 0 <= j < z.len() ==> r.ent(i, j)
                    == self.function.jacobian_spec(self.t, *z).ent(i, j).mul_spec(
                    self.h,
                ).sub_spec(
                    if i == j {
                        T::one_spec()
                    } else {
                        T::zero_spec()
                    },
                ),
    {
        let jf = self.function.jacobian(&self.t, z);
        let m = jf.nrow();
        proof {
            assert(m * m <= usize::MAX) by (nonlinear_arith)
                requires
                    jf.data.len() == m * m,
            ;
        }
        let eye = Matrix::<T>::one(m);
        let out = jf.mul_scalar(self.h).sub(&eye);
        proof {
            assert forall|i: int, j: int| 0 <= i < z.len() && 0 <= j < z.len()
                implies out.ent(i, j) == self.function.jacobian_spec(self.t, *z).ent(
                    i,
                    j,
                ).mul_spec(self.h).sub_spec(
                    if i == j {
                        T::one_spec()
                    } else {
                        T::zero_spec()
                    },
                ) by {
                assert(jf.ent(i, j) == self.function.jacobian_spec(self.t, *z).ent(i, j));
            }
        }
        out
    }
}

} // verus!
