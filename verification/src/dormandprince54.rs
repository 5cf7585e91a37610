//! The Dormand-Prince 5(4) embedded Runge-Kutta pair with step-size
//! control.
//!
//! One set of seven stage evaluations yields a fifth-order and a
//! fourth-order estimate; their largest componentwise difference drives
//! the acceptance test and the step-size update
//! `0.9 * h * (abs_tol / error)^(1/5)`.

use vstd::prelude::*;
use crate::abstr::{ratio, ratio_spec, Field, Identity, Lattice, Real, Scalar};
use crate::ode::{within_stop, ExplicitAdaptiveMethod, ExplicitODE};
use crate::vector::{argmax_to, Vector};

verus! {

/// The largest componentwise absolute difference of two equally long
/// state estimates, located by the running-maximum scan.
pub open spec fn max_abs_diff<T: Real>(y: Seq<T>, yh: Seq<T>) -> T {
    let d = Seq::new(y.len(), |i: int| y[i].sub_spec(yh[i]).abs_spec());
    d[argmax_to(d, y.len() as int)]
}

/// `y` was accepted as a step of dimension `dim`: some companion
/// estimate differs from it by at most `abs_tol` in the largest
/// component.
pub open spec fn dp54_accepted<T: Real>(abs_tol: T, dim: int, y: Seq<T>) -> bool {
    exists|alt: Seq<T>| alt.len() == dim && max_abs_diff(y, alt).le_spec(abs_tol)
}

/// Dormand-Prince 5(4): absolute tolerance, initial step size and step
/// budget.
pub struct DormandPrince54<T> {
    pub abs_tol: T,
    pub h_0: T,
    pub n_max: u32,
}

impl<T: Real> DormandPrince54<T> {
    /// Bundles the configuration: an explicit Runge-Kutta method of order
    /// five with an embedded fourth-order error estimate.
    pub fn new(abs_tol: T, begin_step_size: T, n_max: u32) -> (r: DormandPrince54<T>)
        ensures
            r.abs_tol == abs_tol,
            r.h_0 == begin_step_size,
            r.n_max == n_max,
    {
        DormandPrince54 { abs_tol, h_0: begin_step_size, n_max }
    }

    /// The initial step size.
    pub fn get_begin_step_size(&self) -> (r: T)
        ensures
            r == self.h_0,
    {
        self.h_0
    }

    /// Sets the initial step size.
    pub fn set_begin_step_size(&mut self, step_size: T)
        ensures
            final(self).h_0 == step_size,
            final(self).abs_tol == old(self).abs_tol,
            final(self).n_max == old(self).n_max,
    {
        self.h_0 = step_size;
    }

    /// The next step size: `0.9 * h * (abs_tol / error)^(1/5)`.
    fn calc_step_size(&self, h_n: T, error_n: T) -> (r: T)
        ensures
            r == ratio_spec::<T>(9, 10).mul_spec(h_n).mul_spec(
                self.abs_tol.div_spec(error_n).pow_spec(
                    T::one_spec().div_spec(T::from_i64_spec(5)),
                ),
            ),
    {
        let f: T = ratio(9, 10);
        let e = T::one().div(T::from_i64(5));
        f.mul(h_n).mul(self.abs_tol.div(error_n).pow(e))
    }

    /// The largest componentwise absolute difference of the two
    /// estimates, located by the running-maximum scan.
    pub fn calc_error(&self, y: &Vector<T>, y_hat: &Vector<T>) -> (r: T)
        requires
            y.wf(),
            y_hat.wf(),
            y.len() == y_hat.len(),
            y.len() >= 1,
            y.data.m == y_hat.data.m,
            y.data.n == y_hat.data.n,
        ensures
            r == max_abs_diff(y.vals(), y_hat.vals()),
    {
        let diff = y.sub(y_hat).abs();
        proof {
            assert(diff.vals() =~= Seq::new(
                y.len() as nat,
                |i: int| y.vals()[i].sub_spec(y_hat.vals()[i]).abs_spec(),
            ));
        }
        let idx_max = diff.argmax();
        diff.get(idx_max)
    }

    /// Integrates `prob` over the problem's own modeled time span; the
    /// work is [`DormandPrince54::solve_span`]'s and its trajectory
    /// promises carry over, stated against the modeled span and initial
    /// state.  A span whose stop compares strictly before its start, or
    /// an empty state, is rejected with an error; a trivially covered
    /// ordered span with a non-empty state always succeeds.
    pub fn solve<F: ExplicitODE<T>>(&self, prob: &F) -> (r: Result<
        (Vec<T>, Vec<Vector<T>>),
        &'static str,
    >)
        ensures
            prob.span_spec().1.lt_spec(prob.span_spec().0) ==> r.is_err(),
            !prob.span_spec().1.lt_spec(prob.span_spec().0) && !prob.span_spec().0.lt_spec(
                prob.span_spec().1,
            ) && prob.init_spec().vals().len() >= 1 ==> r.is_ok(),
            r.is_err() ==> prob.span_spec().1.lt_spec(prob.span_spec().0) || prob.span_spec(
            ).0.lt_spec(prob.span_spec().1) || prob.init_spec().vals().len() < 1,
            r matches Ok(out) ==> {
                &&& out.0.len() == out.1.len()
                &&& 1 <= out.0.len() <= self.n_max + 1
                &&& out.0[0] == prob.span_spec().0
                &&& out.1[0].vals() == prob.init_spec().vals()
                &&& forall|k: int|
                    0 <= k < out.0.len() ==> within_stop(#[trigger] out.0[k], prob.span_spec().1)
                &&& !out.0[out.0.len() - 1].lt_spec(prob.span_spec().1)
                &&& forall|k: int|
                    0 <= k < out.1.len() ==> (#[trigger] out.1[k]).wf() && out.1[k].is_column()
                        && out.1[k].len() == prob.init_spec().vals().len()
                &&& forall|k: int|
                    1 <= k < out.1.len() ==> dp54_accepted(
                        self.abs_tol,
                        prob.init_spec().vals().len() as int,
                        (#[trigger] out.1[k]).vals(),
                    )
            },
    {
        let span = prob.time_span();
        let t_start = span.0;
        let t_stop = span.1;
        if t_stop.lt(t_start) {
            return Err("time span is not ordered");
        }
        let x_0 = prob.init_cond();
        let count = if x_0.data.m == 1 {
            x_0.data.n
        } else {
            x_0.data.m
        };
        if count < 1 {
            return Err("empty initial condition");
        }
        proof {
            assert(x_0.len() == prob.init_spec().vals().len() as int);
        }
        self.solve_span(prob, t_start, t_stop, x_0)
    }

    /// Integrates `prob` from the state `x_0` at `t_start` until
    /// `t_stop`.  The promises mirror the adaptive stepper's: the
    /// trajectory starts at `t_start` with the state `x_0`, no recorded
    /// time exceeds `t_stop`, on success the stop time was reached, and
    /// every later state was accepted only because its step's error
    /// compared within the absolute tolerance.  A span whose stop does
    /// not compare after its start is covered trivially and always
    /// succeeds.  Every step proposal consumes one unit of the budget
    /// `n_max`, so at most `n_max` steps are recorded; exhausting the
    /// budget early discards the partial trajectory and reports an
    /// error.
    pub fn solve_span<F: ExplicitODE<T>>(&self, prob: &F, t_start: T, t_stop: T, x_0: Vector<T>) -> (r:
        Result<(Vec<T>, Vec<Vector<T>>), &'static str>)
        requires
            !t_stop.lt_spec(t_start),
            x_0.wf(),
            x_0.is_column(),
            x_0.len() >= 1,
        ensures
            !t_start.lt_spec(t_stop) ==> r.is_ok(),
            r.is_err() ==> t_start.lt_spec(t_stop),
            r matches Ok(out) ==> {
                &&& out.0.len() == out.1.len()
                &&& 1 <= out.0.len() <= self.n_max + 1
                &&& out.0[0] == t_start
                &&& out.1[0].vals() == x_0.vals()
                &&& forall|k: int|
                    0 <= k < out.0.len() ==> within_stop(#[trigger] out.0[k], t_stop)
                &&& forall|k: int|
                    0 <= k < out.1.len() ==> (#[trigger] out.1[k]).wf() && out.1[k].is_column()
                        && out.1[k].len() == x_0.len()
                &&& forall|k: int|
                    1 <= k < out.1.len() ==> dp54_accepted(
                        self.abs_tol,
                        x_0.len(),
                        (#[trigger] out.1[k]).vals(),
                    )
                &&& !out.0[out.0.len() - 1].lt_spec(t_stop)
            },
    {
        let mut x_n = x_0;
        let mut t_n = t_start;
        let mut h_n = self.h_0;
        let mut t_vec: Vec<T> = Vec::new();
        t_vec.push(t_n);
        let mut res_vec: Vec<Vector<T>> = Vec::new();
        res_vec.push(x_n.duplicate());
        let mut n: u32 = 0;
        while n < self.n_max && t_n.lt(t_stop)
            invariant
                n <= self.n_max,
                !t_stop.lt_spec(t_start),
                !t_start.lt_spec(t_stop) ==> t_n == t_start,
                x_n.wf() && x_n.is_column() && x_n.len() == x_0.len(),
                x_0.len() >= 1,
                t_vec.len() == res_vec.len(),
                1 <= t_vec.len() <= n + 1,
                t_vec[0] == t_start,
                res_vec[0].vals() == x_0.vals(),
                t_vec[t_vec.len() - 1] == t_n,
                forall|k: int| 0 <= k < t_vec.len() ==> within_stop(#[trigger] t_vec[k], t_stop),
                forall|k: int|
                    0 <= k < res_vec.len() ==> (#[trigger] res_vec[k]).wf()
                        && res_vec[k].is_column() && res_vec[k].len() == x_0.len(),
                forall|k: int|
                    1 <= k < res_vec.len() ==> dp54_accepted(
                        self.abs_tol,
                        x_0.len(),
                        (#[trigger] res_vec[k]).vals(),
                    ),
            decreases self.n_max - n,
        {
            let span_left = t_stop.sub(t_n);
            h_n = h_n.min(span_left);
            let step = self.do_step(prob, &t_n, &x_n, &h_n);
            let x_n_new = step.0;
            let x_n_alt = step.1;
            let error_n = self.calc_error(&x_n_new, &x_n_alt);
            if error_n.le(self.abs_tol) {
                let mut t_next = t_n.add(h_n);
                if t_stop.lt(t_next) {
                    // Clip the final step: never overshoot the stop time.
                    t_next = t_stop;
                }
                t_n = t_next;
                x_n = x_n_new;
                let ghost old_len = res_vec.len();
                t_vec.push(t_n);
                res_vec.push(x_n.duplicate());
                proof {
                    assert forall|k: int| 1 <= k < res_vec.len()
                        implies dp54_accepted(
                            self.abs_tol,
                            x_0.len(),
                            (#[trigger] res_vec[k]).vals(),
                        ) by {
                        if k == old_len {
                            assert(res_vec[k].vals() == x_n_new.vals());
                            assert(x_n_alt.vals().len() == x_0.len());
                            assert(max_abs_diff(res_vec[k].vals(), x_n_alt.vals()).le_spec(
                                self.abs_tol,
                            ));
                        }
                    }
                }
            }
            n = n + 1;
            h_n = self.calc_step_size(h_n, error_n);
        }
        if t_n.lt(t_stop) {
            return Err("maximum number of iterations reached");
        }
        Ok((t_vec, res_vec))
    }
}

/// `x + k * c`, componentwise.
pub open spec fn seq_axpy<T: Real>(x: Seq<T>, k: Seq<T>, c: T) -> Seq<T> {
    Seq::new(x.len(), |i: int| x[i].add_spec(k[i].mul_spec(c)))
}

/// `x - k * c`, componentwise.
pub open spec fn seq_axmy<T: Real>(x: Seq<T>, k: Seq<T>, c: T) -> Seq<T> {
    Seq::new(x.len(), |i: int| x[i].sub_spec(k[i].mul_spec(c)))
}

/// `f * h`, componentwise: a stage value scaled by the step size.
pub open spec fn seq_scale<T: Real>(f: Seq<T>, h: T) -> Seq<T> {
    Seq::new(f.len(), |i: int| f[i].mul_spec(h))
}

/// The fifth-order Dormand-Prince combination of the stage values
/// `f1, f3, f4, f5, f6` scaled by `h`, accumulated onto `x` in the order
/// the step computes it.
pub open spec fn dp54_fifth<T: Real>(
    x: Seq<T>,
    h: T,
    f1: Seq<T>,
    f3: Seq<T>,
    f4: Seq<T>,
    f5: Seq<T>,
    f6: Seq<T>,
) -> Seq<T> {
    seq_axpy(
        seq_axmy(
            seq_axpy(
                seq_axpy(
                    seq_axpy(x, seq_scale(f1, h), ratio_spec(35, 384)),
                    seq_scale(f3, h),
                    ratio_spec(500, 1113),
                ),
                seq_scale(f4, h),
                ratio_spec(125, 192),
            ),
            seq_scale(f5, h),
            ratio_spec(2187, 6784),
        ),
        seq_scale(f6, h),
        ratio_spec(11, 84),
    )
}

/// The embedded fourth-order Dormand-Prince combination of the stage
/// values scaled by `h`, accumulated onto `x` in the order the step
/// computes it.
pub open spec fn dp54_fourth<T: Real>(
    x: Seq<T>,
    h: T,
    f1: Seq<T>,
    f3: Seq<T>,
    f4: Seq<T>,
    f5: Seq<T>,
    f6: Seq<T>,
    f7: Seq<T>,
) -> Seq<T> {
    seq_axpy(
        seq_axpy(
            seq_axmy(
                seq_axpy(
                    seq_axpy(
                        seq_axpy(x, seq_scale(f1, h), ratio_spec(5179, 57600)),
                        seq_scale(f3, h),
                        ratio_spec(7571, 16695),
                    ),
                    seq_scale(f4, h),
                    ratio_spec(393, 640),
                ),
                seq_scale(f5, h),
                ratio_spec(92097, 339200),
            ),
            seq_scale(f6, h),
            ratio_spec(187, 2100),
        ),
        seq_scale(f7, h),
        ratio_spec(1, 40),
    )
}

/// One Dormand-Prince step in full: the six stage arguments `x2 .. x7`
/// are the pinned tableau combinations of the earlier stages, each stage
/// value is the problem's modeled derivative at the pinned stage time
/// and argument, and the two estimates are the fifth- and fourth-order
/// combinations of those stage values.  (`x7` is the fifth-order point
/// itself, whose evaluation feeds only the fourth-order estimate.)
pub open spec fn dp54_stages<T: Real, F: ExplicitODE<T>>(
    prob: F,
    t_n: T,
    h: T,
    x_n: Vector<T>,
    x2: Vector<T>,
    x3: Vector<T>,
    x4: Vector<T>,
    x5: Vector<T>,
    x6: Vector<T>,
    x7: Vector<T>,
    r5: Seq<T>,
    r4: Seq<T>,
) -> bool {
    let f1 = prob.func_spec(t_n, x_n).vals();
    let f2 = prob.func_spec(t_n.add_spec(h.mul_spec(ratio_spec(1, 5))), x2).vals();
    let f3 = prob.func_spec(t_n.add_spec(h.mul_spec(ratio_spec(3, 10))), x3).vals();
    let f4 = prob.func_spec(t_n.add_spec(h.mul_spec(ratio_spec(4, 5))), x4).vals();
    let f5 = prob.func_spec(t_n.add_spec(h.mul_spec(ratio_spec(8, 9))), x5).vals();
    let f6 = prob.func_spec(t_n.add_spec(h), x6).vals();
    let f7 = prob.func_spec(t_n.add_spec(h), x7).vals();
    &&& x2.vals() == seq_axpy(x_n.vals(), seq_scale(f1, h), ratio_spec(1, 5))
    &&& x3.vals() == seq_axpy(
        seq_axpy(x_n.vals(), seq_scale(f1, h), ratio_spec(3, 40)),
        seq_scale(f2, h),
        ratio_spec(9, 40),
    )
    &&& x4.vals() == seq_axpy(
        seq_axmy(
            seq_axpy(x_n.vals(), seq_scale(f1, h), ratio_spec(44, 45)),
            seq_scale(f2, h),
            ratio_spec(56, 15),
        ),
        seq_scale(f3, h),
        ratio_spec(32, 9),
    )
    &&& x5.vals() == seq_axmy(
        seq_axpy(
            seq_axmy(
                seq_axpy(x_n.vals(), seq_scale(f1, h), ratio_spec(19372, 6561)),
                seq_scale(f2, h),
                ratio_spec(25360, 2187),
            ),
            seq_scale(f3, h),
            ratio_spec(64448, 6561),
        ),
        seq_scale(f4, h),
        ratio_spec(212, 729),
    )
    &&& x6.vals() == seq_axmy(
        seq_axpy(
            seq_axpy(
                seq_axmy(
                    seq_axpy(x_n.vals(), seq_scale(f1, h), ratio_spec(9017, 3168)),
                    seq_scale(f2, h),
                    ratio_spec(355, 33),
                ),
                seq_scale(f3, h),
                ratio_spec(46732, 5247),
            ),
            seq_scale(f4, h),
            ratio_spec(49, 176),
        ),
        seq_scale(f5, h),
        ratio_spec(5103, 18656),
    )
    &&& x7.vals() == dp54_fifth(x_n.vals(), h, f1, f3, f4, f5, f6)
    &&& r5 == x7.vals()
    &&& r4 == dp54_fourth(x_n.vals(), h, f1, f3, f4, f5, f6, f7)
}

/// The two estimates `r5`, `r4` arise from one full Dormand-Prince step
/// at `(t_n, x_n)` with step size `h`: some six stage arguments satisfy
/// [`dp54_stages`].
pub open spec fn dp54_step_ok<T: Real, F: ExplicitODE<T>>(
    prob: F,
    t_n: T,
    h: T,
    x_n: Vector<T>,
    r5: Seq<T>,
    r4: Seq<T>,
) -> bool {
    exists|x2: Vector<T>, x3: Vector<T>, x4: Vector<T>, x5: Vector<T>, x6: Vector<T>, x7: Vector<T>|
        dp54_stages(prob, t_n, h, x_n, x2, x3, x4, x5, x6, x7, r5, r4)
}

impl<T: Real> ExplicitAdaptiveMethod<T> for DormandPrince54<T> {
    /// Beyond the trait's shape promises, the step is pinned in full by
    /// [`dp54_stages`]: there are six stage arguments, each the pinned
    /// tableau combination of the problem's modeled derivative at the
    /// pinned stage times, whose fifth- and fourth-order combinations
    /// the two estimates equal exactly.
    #[verifier::rlimit(100)]
    fn do_step<F: ExplicitODE<T>>(&self, prob: &F, t_n: &T, x_n: &Vector<T>, h: &T) -> (r: (
        Vector<T>,
        Vector<T>,
    ))
        ensures
            dp54_step_ok(*prob, *t_n, *h, *x_n, r.0.vals(), r.1.vals()),
    {
        // k1 = h * f(t_n, x_n)
        let f_1 = prob.func(t_n, x_n);
        let k_1 = f_1.mul_scalar(*h);
        // k2 = h * f(t_n + h/5, x_n + k1/5)
        let t_2 = t_n.add(h.mul(ratio(1, 5)));
        let x_2 = x_n.add(&k_1.mul_scalar(ratio(1, 5)));
        let f_2 = prob.func(&t_2, &x_2);
        let k_2 = f_2.mul_scalar(*h);
        // k3 = h * f(t_n + 3h/10, x_n + 3k1/40 + 9k2/40)
        let k_31 = x_n.add(&k_1.mul_scalar(ratio(3, 40)));
        let k_32 = k_31.add(&k_2.mul_scalar(ratio(9, 40)));
        let t_3 = t_n.add(h.mul(ratio(3, 10)));
        let f_3 = prob.func(&t_3, &k_32);
        let k_3 = f_3.mul_scalar(*h);
        // k4 = h * f(t_n + 4h/5, x_n + 44k1/45 - 56k2/15 + 32k3/9)
        let k_41 = x_n.add(&k_1.mul_scalar(ratio(44, 45)));
        let k_42 = k_41.sub(&k_2.mul_scalar(ratio(56, 15)));
        let k_43 = k_42.add(&k_3.mul_scalar(ratio(32, 9)));
        let t_4 = t_n.add(h.mul(ratio(4, 5)));
        let f_4 = prob.func(&t_4, &k_43);
        let k_4 = f_4.mul_scalar(*h);
        // k5 = h * f(t_n + 8h/9,
        //            x_n + 19372k1/6561 - 25360k2/2187 + 64448k3/6561 - 212k4/729)
        let k_51 = x_n.add(&k_1.mul_scalar(ratio(19372, 6561)));
        let k_52 = k_51.sub(&k_2.mul_scalar(ratio(25360, 2187)));
        let k_53 = k_52.add(&k_3.mul_scalar(ratio(64448, 6561)));
        let k_54 = k_53.sub(&k_4.mul_scalar(ratio(212, 729)));
        let t_5 = t_n.add(h.mul(ratio(8, 9)));
        let f_5 = prob.func(&t_5, &k_54);
        let k_5 = f_5.mul_scalar(*h);
        // k6 = h * f(t_n + h,
        //            x_n + 9017k1/3168 - 355k2/33 + 46732k3/5247 + 49k4/176 - 5103k5/18656)
        let k_61 = x_n.add(&k_1.mul_scalar(ratio(9017, 3168)));
        let k_62 = k_61.sub(&k_2.mul_scalar(ratio(355, 33)));
        let k_63 = k_62.add(&k_3.mul_scalar(ratio(46732, 5247)));
        let k_64 = k_63.add(&k_4.mul_scalar(ratio(49, 176)));
        let k_65 = k_64.sub(&k_5.mul_scalar(ratio(5103, 18656)));
        let t_6 = t_n.add(*h);
        let f_6 = prob.func(&t_6, &k_65);
        let k_6 = f_6.mul_scalar(*h);
        // k7 = h * f(t_n + h,
        //            x_n + 35k1/384 + 500k3/1113 + 125k4/192 - 2187k5/6784 + 11k6/84);
        // the argument is also the fifth-order state, reused as such.
        let k_71 = x_n.add(&k_1.mul_scalar(ratio(35, 384)));
        let k_72 = k_71.add(&k_3.mul_scalar(ratio(500, 1113)));
        let k_73 = k_72.add(&k_4.mul_scalar(ratio(125, 192)));
        let k_74 = k_73.sub(&k_5.mul_scalar(ratio(2187, 6784)));
        let k_75 = k_74.add(&k_6.mul_scalar(ratio(11, 84)));
        let t_7 = t_n.add(*h);
        let f_7 = prob.func(&t_7, &k_75);
        let k_7 = f_7.mul_scalar(*h);
        let rkdp5 = k_75;
        // The embedded fourth-order estimate:
        // x_n + 5179k1/57600 + 7571k3/16695 + 393k4/640 - 92097k5/339200
        //     + 187k6/2100 + k7/40
        let rk_1 = x_n.add(&k_1.mul_scalar(ratio(5179, 57600)));
        let rk_2 = rk_1.add(&k_3.mul_scalar(ratio(7571, 16695)));
        let rk_3 = rk_2.add(&k_4.mul_scalar(ratio(393, 640)));
        let rk_4 = rk_3.sub(&k_5.mul_scalar(ratio(92097, 339200)));
        let rk_5 = rk_4.add(&k_6.mul_scalar(ratio(187, 2100)));
        let rkdp4 = rk_5.add(&k_7.mul_scalar(ratio(1, 40)));
        proof {
            let f1 = f_1.vals();
            let f2 = f_2.vals();
            let f3 = f_3.vals();
            let f4 = f_4.vals();
            let f5 = f_5.vals();
            let f6 = f_6.vals();
            let f7 = f_7.vals();
            let hh = *h;
            assert(k_1.vals() =~= seq_scale(f1, hh));
            assert(k_2.vals() =~= seq_scale(f2, hh));
            assert(x_2.vals() =~= seq_axpy(x_n.vals(), seq_scale(f1, hh), ratio_spec(1, 5)));
            assert(k_31.vals() =~= seq_axpy(x_n.vals(), seq_scale(f1, hh), ratio_spec(3, 40)));
            assert(k_32.vals() =~= seq_axpy(k_31.vals(), seq_scale(f2, hh), ratio_spec(9, 40)));
            assert(k_41.vals() =~= seq_axpy(x_n.vals(), seq_scale(f1, hh), ratio_spec(44, 45)));
            assert(k_42.vals() =~= seq_axmy(k_41.vals(), seq_scale(f2, hh), ratio_spec(56, 15)));
            assert(k_43.vals() =~= seq_axpy(k_42.vals(), seq_scale(f3, hh), ratio_spec(32, 9)));
            assert(k_51.vals() =~= seq_axpy(x_n.vals(), seq_scale(f1, hh), ratio_spec(19372, 6561)));
            assert(k_52.vals() =~= seq_axmy(k_51.vals(), seq_scale(f2, hh), ratio_spec(25360, 2187)));
            assert(k_53.vals() =~= seq_axpy(k_52.vals(), seq_scale(f3, hh), ratio_spec(64448, 6561)));
            assert(k_54.vals() =~= seq_axmy(k_53.vals(), seq_scale(f4, hh), ratio_spec(212, 729)));
            assert(k_61.vals() =~= seq_axpy(x_n.vals(), seq_scale(f1, hh), ratio_spec(9017, 3168)));
            assert(k_62.vals() =~= seq_axmy(k_61.vals(), seq_scale(f2, hh), ratio_spec(355, 33)));
            assert(k_63.vals() =~= seq_axpy(k_62.vals(), seq_scale(f3, hh), ratio_spec(46732, 5247)));
            assert(k_64.vals() =~= seq_axpy(k_63.vals(), seq_scale(f4, hh), ratio_spec(49, 176)));
            assert(k_65.vals() =~= seq_axmy(k_64.vals(), seq_scale(f5, hh), ratio_spec(5103, 18656)));
            assert(k_3.vals() =~= seq_scale(f3, hh));
            assert(k_4.vals() =~= seq_scale(f4, hh));
            assert(k_5.vals() =~= seq_scale(f5, hh));
            assert(k_6.vals() =~= seq_scale(f6, hh));
            assert(k_7.vals() =~= seq_scale(f7, hh));
            assert(k_71.vals() =~= seq_axpy(x_n.vals(), seq_scale(f1, hh), ratio_spec(35, 384)));
            assert(k_72.vals() =~= seq_axpy(k_71.vals(), seq_scale(f3, hh), ratio_spec(500, 1113)));
            assert(k_73.vals() =~= seq_axpy(k_72.vals(), seq_scale(f4, hh), ratio_spec(125, 192)));
            assert(k_74.vals() =~= seq_axmy(k_73.vals(), seq_scale(f5, hh), ratio_spec(2187, 6784)));
            assert(k_75.vals() =~= seq_axpy(k_74.vals(), seq_scale(f6, hh), ratio_spec(11, 84)));
            assert(rkdp5.vals() == dp54_fifth(x_n.vals(), hh, f1, f3, f4, f5, f6));
            assert(rk_1.vals() =~= seq_axpy(x_n.vals(), seq_scale(f1, hh), ratio_spec(5179, 57600)));
            assert(rk_2.vals() =~= seq_axpy(rk_1.vals(), seq_scale(f3, hh), ratio_spec(7571, 16695)));
            assert(rk_3.vals() =~= seq_axpy(rk_2.vals(), seq_scale(f4, hh), ratio_spec(393, 640)));
            assert(rk_4.vals() =~= seq_axmy(rk_3.vals(), seq_scale(f5, hh), ratio_spec(92097, 339200)));
            assert(rk_5.vals() =~= seq_axpy(rk_4.vals(), seq_scale(f6, hh), ratio_spec(187, 2100)));
            assert(rkdp4.vals() =~= seq_axpy(rk_5.vals(), seq_scale(f7, hh), ratio_spec(1, 40)));
            assert(rkdp4.vals() == dp54_fourth(x_n.vals(), hh, f1, f3, f4, f5, f6, f7));
            assert(dp54_stages(
                *prob,
                *t_n,
                hh,
                *x_n,
                x_2,
                k_32,
                k_43,
                k_54,
                k_65,
                k_75,
                rkdp5.vals(),
                rkdp4.vals(),
            ));
            assert(dp54_step_ok(*prob, *t_n, hh, *x_n, rkdp5.vals(), rkdp4.vals()));
        }
        (rkdp5, rkdp4)
    }

    /// The orders of the two estimates.
    fn order(&self) -> (u8, u8) {
        (5, 4)
    }
}

} // verus!
