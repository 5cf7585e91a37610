//! Error-controlled adaptive step-size integration driver.
//!
//! The stepper asks an embedded method for two estimates per step, turns
//! their difference into a scalar error over a mixed absolute/relative
//! tolerance, accepts the step only when that error is at most one, and
//! rescales the step size by `fac * error^(-1/(order+1))` clamped to
//! `[fac_min, fac_max]`.  The final step is clipped so that no recorded
//! time ever exceeds the stop time; if the step budget runs out before
//! the stop time is reached, the partial trajectory is discarded and an
//! error is reported.

use vstd::prelude::*;
use crate::abstr::{ratio, ratio_spec, Field, Identity, Lattice, Real, Scalar};
use crate::ode::{within_stop, ExplicitAdaptiveMethod, ExplicitODE};
use crate::vector::Vector;

verus! {

/// The accumulated squared error over the first `k` components:
/// each term is `((y_i - yh_i) / (abs_tol + max(|y_i|, |yh_i|) * rel_tol))^2`.
pub open spec fn error_sum<T: Real>(abs_tol: T, rel_tol: T, y: Seq<T>, yh: Seq<T>, k: int) -> T
    decreases k,
{
    if k <= 0 {
        T::zero_spec()
    } else {
        let i = k - 1;
        let sc = abs_tol.add_spec(y[i].abs_spec().max_spec(yh[i].abs_spec()).mul_spec(rel_tol));
        let d = y[i].sub_spec(yh[i]).div_spec(sc);
        error_sum(abs_tol, rel_tol, y, yh, k - 1).add_spec(d.mul_spec(d))
    }
}

/// The scalar error of one step: the root of the mean of the squared
/// tolerance-scaled component differences.
pub open spec fn error_value<T: Real>(abs_tol: T, rel_tol: T, y: Seq<T>, yh: Seq<T>) -> T {
    error_sum(abs_tol, rel_tol, y, yh, y.len() as int).div_spec(
        T::from_i64_spec(y.len() as i64),
    ).pow_spec(ratio_spec(1, 2))
}

/// `y` was accepted as a step of dimension `dim`: some companion
/// estimate keeps the mixed-tolerance error of the pair within one.
pub open spec fn adaptive_accepted<T: Real>(abs_tol: T, rel_tol: T, dim: int, y: Seq<T>) -> bool {
    exists|alt: Seq<T>| alt.len() == dim && error_value(abs_tol, rel_tol, y, alt).le_spec(
        T::one_spec(),
    )
}

/// Adaptive step-size stepper: the step budget, the initial step size,
/// the step-rescaling factors and the two tolerances.
pub struct AdaptiveStepper<T> {
    pub n_max: u32,
    pub h_0: T,
    pub fac: T,
    pub fac_min: T,
    pub fac_max: T,
    pub abs_tol: T,
    pub rel_tol: T,
}

impl<T: Real> Default for AdaptiveStepper<T> {
    /// A budget of a thousand step proposals, initial step `0.02`,
    /// rescaling `0.8` clamped to `[0.001, 3]`, absolute tolerance
    /// `1e-5`, relative tolerance `0.01`.
    fn default() -> (r: AdaptiveStepper<T>)
        ensures
            r.n_max == 1000u32,
            r.h_0 == ratio_spec::<T>(1, 50),
            r.fac == ratio_spec::<T>(4, 5),
            r.fac_min == ratio_spec::<T>(1, 1000),
            r.fac_max == T::from_i64_spec(3),
            r.abs_tol == ratio_spec::<T>(1, 100000),
            r.rel_tol == ratio_spec::<T>(1, 100),
    {
        AdaptiveStepper::new(
            1000,
            ratio(1, 50),
            ratio(4, 5),
            ratio(1, 1000),
            T::from_i64(3),
            ratio(1, 100000),
            ratio(1, 100),
        )
    }
}

impl<T: Real> AdaptiveStepper<T> {
    /// Bundles the configuration.
    pub fn new(n_max: u32, h_0: T, fac: T, fac_min: T, fac_max: T, abs_tol: T, rel_tol: T) -> (r:
        AdaptiveStepper<T>)
        ensures
            r.n_max == n_max,
            r.h_0 == h_0,
            r.fac == fac,
            r.fac_min == fac_min,
            r.fac_max == fac_max,
            r.abs_tol == abs_tol,
            r.rel_tol == rel_tol,
    {
        AdaptiveStepper { n_max, h_0, fac, fac_min, fac_max, abs_tol, rel_tol }
    }

    /// The absolute tolerance.
    pub fn get_abs_tol(&self) -> (r: T)
        ensures
            r == self.abs_tol,
    {
        self.abs_tol
    }

    /// The relative tolerance.
    pub fn get_rel_tol(&self) -> (r: T)
        ensures
            r == self.rel_tol,
    {
        self.rel_tol
    }

    /// Sets the absolute tolerance, which must not compare below zero.
    pub fn set_abs_tol(&mut self, abs_tol: T)
        requires
            !abs_tol.lt_spec(T::zero_spec()),
        ensures
            final(self).abs_tol == abs_tol,
            final(self).rel_tol == old(self).rel_tol,
            final(self).n_max == old(self).n_max,
            final(self).h_0 == old(self).h_0,
            final(self).fac == old(self).fac,
            final(self).fac_min == old(self).fac_min,
            final(self).fac_max == old(self).fac_max,
    {
        self.abs_tol = abs_tol;
    }

    /// Sets the relative tolerance, which must not compare below zero.
    pub fn set_rel_tol(&mut self, rel_tol: T)
        requires
            !rel_tol.lt_spec(T::zero_spec()),
        ensures
            final(self).rel_tol == rel_tol,
            final(self).abs_tol == old(self).abs_tol,
            final(self).n_max == old(self).n_max,
            final(self).h_0 == old(self).h_0,
            final(self).fac == old(self).fac,
            final(self).fac_min == old(self).fac_min,
            final(self).fac_max == old(self).fac_max,
    {
        self.rel_tol = rel_tol;
    }

    /// The scalar error of one step: the root of the mean of the squared
    /// tolerance-scaled component differences.
    fn calc_error(&self, y: &Vector<T>, y_hat: &Vector<T>) -> (r: T)
        requires
            y.wf(),
            y_hat.wf(),
            y.len() == y_hat.len(),
            y.len() <= i64::MAX,
        ensures
            r == error_value(self.abs_tol, self.rel_tol, y.vals(), y_hat.vals()),
    {
        let count = if y.data.m == 1 {
            y.data.n
        } else {
            y.data.m
        };
        let mut sum = T::zero();
        let mut i: usize = 0;
        while i < count
            invariant
                i <= count,
                count == y.len(),
                y.wf(),
                y_hat.wf(),
                y.len() == y_hat.len(),
                sum == error_sum(self.abs_tol, self.rel_tol, y.vals(), y_hat.vals(), i as int),
            decreases count - i,
        {
            let y_i = y.get(i);
            let y_hat_i = y_hat.get(i);
            let sc = self.abs_tol.add(y_i.abs().max(y_hat_i.abs()).mul(self.rel_tol));
            let d = y_i.sub(y_hat_i).div(sc);
            sum = sum.add(d.mul(d));
            i = i + 1;
        }
        #[verifier::truncate]
        let count_i = count as i64;
        sum.div(T::from_i64(count_i)).pow(ratio(1, 2))
    }

    /// Integrates `prob` with the embedded method `method` over the
    /// problem's own modeled time span; the work is
    /// [`AdaptiveStepper::solve_span`]'s and its trajectory promises
    /// carry over, stated against the modeled span and initial state.  A
    /// time span whose stop compares strictly before its start, or a
    /// state dimension beyond the machine's range, is rejected with an
    /// error; a trivially covered ordered span within range always
    /// succeeds.
    pub fn solve<F: ExplicitODE<T>, M: ExplicitAdaptiveMethod<T>>(&self, prob: &F, method: &M) -> (r:
        Result<(Vec<T>, Vec<Vector<T>>), &'static str>)
        ensures
            prob.span_spec().1.lt_spec(prob.span_spec().0) ==> r.is_err(),
            !prob.span_spec().1.lt_spec(prob.span_spec().0) && !prob.span_spec().0.lt_spec(
                prob.span_spec().1,
            ) && prob.init_spec().vals().len() <= i64::MAX ==> r.is_ok(),
            r.is_err() ==> prob.span_spec().1.lt_spec(prob.span_spec().0) || prob.span_spec(
            ).0.lt_spec(prob.span_spec().1) || prob.init_spec().vals().len() > i64::MAX,
            r matches Ok(out) ==> {
                &&& out.0.len() == out.1.len()
                &&& 1 <= out.0.len() <= self.n_max + 1
                &&& out.0[0] == prob.span_spec().0
                &&& out.1[0].vals() == prob.init_spec().vals()
                &&& forall|k: int|
                    0 <= k < out.0.len() ==> within_stop(#[trigger] out.0[k], prob.span_spec().1)
                &&& !out.0[out.0.len() - 1].lt_spec(prob.span_spec().1)
                &&& forall|k: int|
                    0 <= k < out.1.len() ==> (#[trigger] out.1[k]).wf() && out.1[k].is_column()
                        && out.1[k].len() == prob.init_spec().vals().len()
                &&& forall|k: int|
                    1 <= k < out.1.len() ==> adaptive_accepted(
                        self.abs_tol,
                        self.rel_tol,
                        prob.init_spec().vals().len() as int,
                        (#[trigger] out.1[k]).vals(),
                    )
            },
    {
        let span = prob.time_span();
        let t_start = span.0;
        let t_stop = span.1;
        if t_stop.lt(t_start) {
            return Err("time span is not ordered");
        }
        let x_0 = prob.init_cond();
        let count = if x_0.data.m == 1 {
            x_0.data.n
        } else {
            x_0.data.m
        };
        proof {
            assert(x_0.len() == prob.init_spec().vals().len() as int);
        }
        if count as u64 > i64::MAX as u64 {
            return Err("state dimension out of range");
        }
        self.solve_span(prob, method, t_start, t_stop, x_0)
    }

    /// Integrates `prob` with the embedded method `method` from the state
    /// `x_0` at `t_start` until `t_stop`.
    ///
    /// On success the trajectory starts at `t_start` with the state
    /// `x_0`, every recorded time stays within `t_stop`, the last
    /// recorded time is no longer before `t_stop` (the span was
    /// covered), and every later state was accepted only because its
    /// step's error compared within one.  A span whose stop does not
    /// compare after its start is covered trivially and always succeeds.
    /// Every step proposal, accepted or rejected, consumes one unit of
    /// the budget `n_max`, so the integration always terminates and
    /// records at most `n_max` steps; if the budget runs out before the
    /// stop time is reached, the partial trajectory is discarded and an
    /// error is returned.
    pub fn solve_span<F: ExplicitODE<T>, M: ExplicitAdaptiveMethod<T>>(
        &self,
        prob: &F,
        method: &M,
        t_start: T,
        t_stop: T,
        x_0: Vector<T>,
    ) -> (r: Result<(Vec<T>, Vec<Vector<T>>), &'static str>)
        requires
            !t_stop.lt_spec(t_start),
            x_0.wf(),
            x_0.is_column(),
            x_0.len() <= i64::MAX,
        ensures
            !t_start.lt_spec(t_stop) ==> r.is_ok(),
            r.is_err() ==> t_start.lt_spec(t_stop),
            r matches Ok(out) ==> {
                &&& out.0.len() == out.1.len()
                &&& 1 <= out.0.len() <= self.n_max + 1
                &&& out.0[0] == t_start
                &&& out.1[0].vals() == x_0.vals()
                &&& forall|k: int|
                    0 <= k < out.0.len() ==> within_stop(#[trigger] out.0[k], t_stop)
                &&& forall|k: int|
                    0 <= k < out.1.len() ==> (#[trigger] out.1[k]).wf() && out.1[k].is_column()
                        && out.1[k].len() == x_0.len()
                &&& forall|k: int|
                    1 <= k < out.1.len() ==> adaptive_accepted(
                        self.abs_tol,
                        self.rel_tol,
                        x_0.len(),
                        (#[trigger] out.1[k]).vals(),
                    )
                &&& !out.0[out.0.len() - 1].lt_spec(t_stop)
            },
    {
        let order = method.order();
        let q_raw: u8 = if order.0 < order.1 {
            order.1
        } else {
            order.0
        };
        let q = T::from_i64(q_raw as i64);
        let l = T::one().div(q.add(T::one()));
        let mut x_n = x_0;
        let mut t_n = t_start;
        let mut h = self.h_0;
        let mut t_vec: Vec<T> = Vec::new();
        t_vec.push(t_n);
        let mut res_vec: Vec<Vector<T>> = Vec::new();
        res_vec.push(x_n.duplicate());
        let mut n: u32 = 0;
        while n < self.n_max && t_n.lt(t_stop)
            invariant
                n <= self.n_max,
                !t_stop.lt_spec(t_start),
                !t_start.lt_spec(t_stop) ==> t_n == t_start,
                x_n.wf() && x_n.is_column() && x_n.len() == x_0.len(),
                x_0.len() <= i64::MAX,
                t_vec.len() == res_vec.len(),
                1 <= t_vec.len() <= n + 1,
                t_vec[0] == t_start,
                res_vec[0].vals() == x_0.vals(),
                t_vec[t_vec.len() - 1] == t_n,
                forall|k: int| 0 <= k < t_vec.len() ==> within_stop(#[trigger] t_vec[k], t_stop),
                forall|k: int|
                    0 <= k < res_vec.len() ==> (#[trigger] res_vec[k]).wf()
                        && res_vec[k].is_column() && res_vec[k].len() == x_0.len(),
                forall|k: int|
                    1 <= k < res_vec.len() ==> adaptive_accepted(
                        self.abs_tol,
                        self.rel_tol,
                        x_0.len(),
                        (#[trigger] res_vec[k]).vals(),
                    ),
            decreases self.n_max - n,
        {
            let span_left = t_stop.sub(t_n);
            h = h.min(span_left);
            let step = method.do_step(prob, &t_n, &x_n, &h);
            let x_n_new = step.0;
            let x_n_alt = step.1;
            let err = self.calc_error(&x_n_new, &x_n_alt);
            if err.le(T::one()) {
                let mut t_next = t_n.add(h);
                if t_stop.lt(t_next) {
                    // Clip the final step: never overshoot the stop time.
                    t_next = t_stop;
                }
                t_n = t_next;
                x_n = x_n_new;
                let ghost old_len = res_vec.len();
                t_vec.push(t_n);
                res_vec.push(x_n.duplicate());
                proof {
                    assert forall|k: int| 1 <= k < res_vec.len()
                        implies adaptive_accepted(
                            self.abs_tol,
                            self.rel_tol,
                            x_0.len(),
                            (#[trigger] res_vec[k]).vals(),
                        ) by {
                        if k == old_len {
                            assert(res_vec[k].vals() == x_n_new.vals());
                            assert(x_n_alt.vals().len() == x_0.len());
                            assert(error_value(
                                self.abs_tol,
                                self.rel_tol,
                                res_vec[k].vals(),
                                x_n_alt.vals(),
                            ).le_spec(T::one_spec()));
                        }
                    }
                }
            }
            n = n + 1;
            if !err.eq_zero() {
                let mut s = self.fac.mul(T::one().div(err).pow(l));
                if s.lt(self.fac_min) {
                    s = self.fac_min;
                }
                if self.fac_max.lt(s) {
                    s = self.fac_max;
                }
                h = s.mul(h);
            }
        }
        if t_n.lt(t_stop) {
            return Err("maximum number of iterations reached");
        }
        Ok((t_vec, res_vec))
    }
}

} // verus!
