//! Fixed step-size integration driver for implicit methods.
//!
//! The number of steps is the time span divided by the step size; each
//! step delegates to the method, whose nonlinear solve may fail to
//! converge, and that failure is propagated to the caller.  The recorded
//! times are clipped so that none exceeds the stop time.

use vstd::prelude::*;
use crate::abstr::{Field, Lattice, Real, Scalar};
use crate::ode::{within_stop, ImplicitFixedStepSizeMethod, ImplicitODE};
use crate::vector::Vector;

verus! {

/// Fixed step-size stepper for implicit methods.
#[derive(Clone, Copy)]
pub struct ImplicitFixedStepper<T> {
    pub step_size: T,
}

impl<T: Real> ImplicitFixedStepper<T> {
    /// Bundles the step size.
    pub fn new(step_size: T) -> (r: ImplicitFixedStepper<T>)
        ensures
            r.step_size == step_size,
    {
        ImplicitFixedStepper { step_size }
    }

    /// The step size.
    pub fn get_step_size(&self) -> (r: T)
        ensures
            r == self.step_size,
    {
        self.step_size
    }

    /// Sets the step size.
    pub fn set_step_size(&mut self, step_size: T)
        ensures
            final(self).step_size == step_size,
    {
        self.step_size = step_size;
    }

    /// Integrates `prob` with the implicit method `method` over the
    /// problem's own modeled time span; the work is
    /// [`ImplicitFixedStepper::solve_span`]'s and its trajectory
    /// promises carry over, stated against the modeled span and initial
    /// state.  A time span whose stop compares strictly before its start
    /// is rejected.
    pub fn solve<F: ImplicitODE<T>, M: ImplicitFixedStepSizeMethod<T>>(
        &self,
        prob: &F,
        method: &M,
    ) -> (r: Result<(Vec<T>, Vec<Vector<T>>), ()>)
        ensures
            prob.span_spec().1.lt_spec(prob.span_spec().0) ==> r.is_err(),
            r matches Ok(out) ==> {
                &&& out.0.len() == out.1.len()
                &&& out.0.len() >= 1
                &&& out.0[0] == prob.span_spec().0
                &&& out.1[0].vals() == prob.init_spec().vals()
                &&& forall|k: int|
                    0 <= k < out.0.len() ==> within_stop(#[trigger] out.0[k], prob.span_spec().1)
                &&& forall|k: int|
                    1 <= k < out.0.len() ==> (#[trigger] out.0[k]) == out.0[k - 1].add_spec(
                        self.step_size,
                    ) || out.0[k] == prob.span_spec().1
                &&& forall|k: int|
                    0 <= k < out.1.len() ==> (#[trigger] out.1[k]).wf() && out.1[k].is_column()
                        && out.1[k].len() == prob.init_spec().vals().len()
            },
    {
        let span = prob.time_span();
        let t_start = span.0;
        let t_stop = span.1;
        if t_stop.lt(t_start) {
            return Err(());
        }
        let x_0 = prob.init_cond();
        proof {
            assert(x_0.len() == prob.init_spec().vals().len() as int);
        }
        self.solve_span(prob, method, t_start, t_stop, x_0)
    }

    /// Integrates `prob` with the implicit method `method` from the
    /// state `x_0` at `t_start` until `t_stop`, taking
    /// `(t_stop - t_start) / step_size` steps.  A step whose nonlinear
    /// solve fails aborts the integration with `Err`.  On success the
    /// trajectory starts at `t_start` with the state `x_0`, each later
    /// recorded time advances the previous one by the step size except a
    /// final clipped step that records `t_stop` verbatim, no recorded
    /// time exceeds `t_stop`, and states keep the initial dimension.
    pub fn solve_span<F: ImplicitODE<T>, M: ImplicitFixedStepSizeMethod<T>>(
        &self,
        prob: &F,
        method: &M,
        t_start: T,
        t_stop: T,
        x_0: Vector<T>,
    ) -> (r: Result<(Vec<T>, Vec<Vector<T>>), ()>)
        requires
            !t_stop.lt_spec(t_start),
            x_0.wf(),
            x_0.is_column(),
        ensures
            r matches Ok(out) ==> {
                &&& out.0.len() == out.1.len()
                &&& out.0.len() >= 1
                &&& out.0[0] == t_start
                &&& out.1[0].vals() == x_0.vals()
                &&& forall|k: int|
                    0 <= k < out.0.len() ==> within_stop(#[trigger] out.0[k], t_stop)
                &&& forall|k: int|
                    1 <= k < out.0.len() ==> (#[trigger] out.0[k]) == out.0[k - 1].add_spec(
                        self.step_size,
                    ) || out.0[k] == t_stop
                &&& forall|k: int|
                    0 <= k < out.1.len() ==> (#[trigger] out.1[k]).wf() && out.1[k].is_column()
                        && out.1[k].len() == x_0.len()
            },
    {
        let steps = t_stop.sub(t_start).div(self.step_size).to_usize();
        let mut x_n = x_0;
        let mut t_n = t_start;
        let mut t_vec: Vec<T> = Vec::new();
        t_vec.push(t_n);
        let mut res_vec: Vec<Vector<T>> = Vec::new();
        res_vec.push(x_n.duplicate());
        let mut k: usize = 0;
        while k < steps
            invariant
                k <= steps,
                !t_stop.lt_spec(t_start),
                x_n.wf() && x_n.is_column() && x_n.len() == x_0.len(),
                t_vec.len() == res_vec.len(),
                t_vec.len() >= 1,
                t_vec[0] == t_start,
                res_vec[0].vals() == x_0.vals(),
                t_vec[t_vec.len() - 1] == t_n,
                forall|k2: int| 0 <= k2 < t_vec.len() ==> within_stop(#[trigger] t_vec[k2], t_stop),
                forall|k2: int|
                    1 <= k2 < t_vec.len() ==> (#[trigger] t_vec[k2]) == t_vec[k2 - 1].add_spec(
                        self.step_size,
                    ) || t_vec[k2] == t_stop,
                forall|k2: int|
                    0 <= k2 < res_vec.len() ==> (#[trigger] res_vec[k2]).wf()
                        && res_vec[k2].is_column() && res_vec[k2].len() == x_0.len(),
            decreases steps - k,
        {
            x_n = match method.do_step(prob, &t_n, &x_n, &self.step_size) {
                Ok(x) => x,
                Err(_) => {
                    return Err(());
                },
            };
            let mut t_next = t_n.add(self.step_size);
            if t_stop.lt(t_next) {
                // Clip: never record a time past the stop time.
                t_next = t_stop;
            }
            t_n = t_next;
            t_vec.push(t_n);
            res_vec.push(x_n.duplicate());
            k = k + 1;
        }
        Ok((t_vec, res_vec))
    }
}

} // verus!
