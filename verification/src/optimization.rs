//! Nonlinear least squares and minimization: the Gauss-Newton iteration
//! and Newton's method with a backtracking line search, both consuming
//! the solve facade.
//!
//! The capability traits model each query with an abstract counterpart
//! of the same implementation, the way the scalar traits model their
//! operations, and the minimizers' contracts chain the pinned per-step
//! updates over those models; an implementation outside this crate is
//! trusted to keep its queries to its own model.

use vstd::prelude::*;
use core::marker::PhantomData;
use crate::abstr::{Field, Identity, Lattice, Real};
use crate::lu::{lu_nonsingular, lu_of, lu_solve_seq, LUDec};
use crate::matrix::{dot, Matrix};
use crate::solve::{gram_of, Solve};
use crate::vector::Vector;

verus! {

/// A residual function and its Jacobian, as Gauss-Newton consumes them:
/// the residual maps a parameter vector to a residual vector, and the
/// Jacobian has one row per residual and one column per parameter.  Each
/// query is pinned to an abstract model of the same implementation, the
/// way the scalar traits model their operations.
pub trait Optim<T: Real> {
    /// The residual at `x`, as an abstract value.
    spec fn eval_spec(&self, x: Vector<T>) -> Vector<T>;

    /// The Jacobian at `x`, as an abstract value.
    spec fn jacobian_spec(&self, x: Vector<T>) -> Matrix<T>;

    /// The residual vector at `x`, with the modeled components.
    fn eval(&self, x: &Vector<T>) -> (r: Vector<T>)
        requires
            x.wf(),
            x.is_column(),
        ensures
            r.wf(),
            r.is_column(),
            r.vals() == self.eval_spec(*x).vals(),
    ;

    /// The Jacobian of the residual at `x`: one column per parameter,
    /// with the modeled entries.
    fn jacobian(&self, x: &Vector<T>) -> (r: Matrix<T>)
        requires
            x.wf(),
            x.is_column(),
        ensures
            r.wf(),
            r.n == x.len(),
            r.m == self.jacobian_spec(*x).rows(),
            forall|i: int, j: int|
                0 <= i < r.rows() && 0 <= j < r.cols() ==> r.ent(i, j) == self.jacobian_spec(
                    *x,
                ).ent(i, j),
    ;
}

/// A scalar objective for Newton's method, presented as a one-component
/// vector, with its gradient as the first row of the Jacobian; both
/// queries are pinned to abstract models of the same implementation.
pub trait Jacobian<T: Real> {
    /// The objective vector at `x`, as an abstract value.
    spec fn eval_spec(&self, x: Vector<T>) -> Vector<T>;

    /// The gradient row at `x`, as an abstract value.
    spec fn jacobian_spec(&self, x: Vector<T>) -> Matrix<T>;

    /// The objective at `x`, in component `0`, with the modeled
    /// components.
    fn eval(&self, x: &Vector<T>) -> (r: Vector<T>)
        requires
            x.wf(),
            x.is_column(),
        ensures
            r.wf(),
            r.is_column(),
            r.len() >= 1,
            r.vals() == self.eval_spec(*x).vals(),
    ;

    /// The gradient at `x`, as the first row, with the modeled entries.
    fn jacobian(&self, x: &Vector<T>) -> (r: Matrix<T>)
        requires
            x.wf(),
            x.is_column(),
        ensures
            r.wf(),
            r.m >= 1,
            r.n == x.len(),
            forall|i: int, j: int|
                0 <= i < r.rows() && 0 <= j < r.cols() ==> r.ent(i, j) == self.jacobian_spec(
                    *x,
                ).ent(i, j),
    ;
}

/// A twice differentiable objective: a gradient and a Hessian, the
/// Hessian pinned to its abstract model as well.
pub trait Hessian<T: Real>: Jacobian<T> {
    /// The Hessian at `x`, as an abstract value.
    spec fn hessian_spec(&self, x: Vector<T>) -> Matrix<T>;

    /// The Hessian at `x`, a square matrix of the parameter dimension,
    /// with the modeled entries.
    fn hessian(&self, x: &Vector<T>) -> (r: Matrix<T>)
        requires
            x.wf(),
            x.is_column(),
        ensures
            r.wf(),
            r.m == x.len(),
            r.n == x.len(),
            forall|i: int, j: int|
                0 <= i < x.len() && 0 <= j < x.len() ==> r.ent(i, j) == self.hessian_spec(
                    *x,
                ).ent(i, j),
    ;
}

/// The step factor after `k` halvings of one.
pub open spec fn halved<T: Real>(k: int) -> T
    decreases k,
{
    if k <= 0 {
        T::one_spec()
    } else {
        halved::<T>(k - 1).div_spec(T::one_spec().add_spec(T::one_spec()))
    }
}

/// The result of a minimization: the argument the iteration settled on.
pub struct OptimResult<V> {
    pub best: V,
}

impl<V> OptimResult<V> {
    /// Wraps the minimizer.
    pub fn new(best: V) -> (r: OptimResult<V>)
        ensures
            r.best == best,
    {
        OptimResult { best }
    }

    /// The minimizer.
    pub fn arg(self) -> (r: V)
        ensures
            r == self.best,
    {
        self.best
    }
}

/// The Gauss-Newton iteration for nonlinear least squares.
pub struct GaussNewton<T> {
    pub iters: u64,
    pub phantom: PhantomData<T>,
}

impl<T: Real> GaussNewton<T> {
    /// Bundles the iteration budget.
    pub fn new(iters: u64) -> (r: GaussNewton<T>)
        ensures
            r.iters == iters,
    {
        GaussNewton { iters, phantom: PhantomData }
    }

    /// Minimizes the squared residual of `func` from the start point
    /// `x_0`: the result is the end of a chain of `iters` Gauss-Newton
    /// updates ([`gn_chain`]), each step taken against the problem's
    /// modeled Jacobian and residual at the current iterate.  An empty
    /// budget returns the start point unchanged.
    pub fn minimize<F: Optim<T>>(&self, func: &F, x_0: &Vector<T>) -> (r: OptimResult<Vector<T>>)
        requires
            x_0.wf(),
            x_0.is_column(),
        ensures
            r.best.wf(),
            r.best.is_column(),
            r.best.len() == x_0.len(),
            self.iters == 0 ==> r.best.vals() == x_0.vals(),
            gn_chain(*func, self.iters as int, *x_0, r.best),
    {
        let mut x_n = x_0.duplicate();
        let ghost mut steps: Seq<Vector<T>> = seq![x_n];
        let mut i: u64 = 0;
        while i < self.iters
            invariant
                i <= self.iters,
                x_n.wf() && x_n.is_column() && x_n.len() == x_0.len(),
                i == 0 ==> x_n.vals() == x_0.vals(),
                steps.len() == i + 1,
                steps[0].vals() == x_0.vals(),
                steps[i as int] == x_n,
                forall|k: int|
                    0 <= k < steps.len() ==> (#[trigger] steps[k]).wf() && steps[k].is_column()
                        && steps[k].len() == x_0.len(),
                forall|k: int| 0 <= k < i ==> gn_step_rel(*func, #[trigger] steps[k], steps[k + 1]),
            decreases self.iters - i,
        {
            let jacobian_x_n = func.jacobian(&x_n);
            let f_x_n = func.eval(&x_n);
            let ghost prev = x_n;
            x_n = gauss_newton_step(&jacobian_x_n, &f_x_n, &x_n);
            proof {
                assert(gn_step_rel(*func, prev, x_n));
                steps = steps.push(x_n);
            }
            i = i + 1;
        }
        OptimResult::new(x_n)
    }
}

/// One Gauss-Newton update taken: for the shapes a least-squares problem
/// produces, `next` is `cur` minus the left pseudoinverse of the
/// Jacobian applied to the residual, pinned through the Gram matrix's
/// factor triple; for any other shapes `next` keeps `cur`'s components.
pub open spec fn gn_update_ok<T: Real>(
    jacobian: Matrix<T>,
    residual: Vector<T>,
    cur: Vector<T>,
    next: Vector<T>,
) -> bool {
    if jacobian.rows() >= jacobian.cols() && residual.len() == jacobian.rows() {
        exists|g: Matrix<T>, pv: Matrix<T>|
            {
                &&& gram_of(jacobian, g)
                &&& pv.wf()
                &&& pv.rows() == jacobian.cols()
                &&& pv.cols() == jacobian.rows()
                &&& exists|d: LUDec<T>|
                    lu_of(g, d) && forall|j: int|
                        0 <= j < jacobian.rows() ==> pv.col(j) == lu_solve_seq(
                            d,
                            #[trigger] jacobian.row(j),
                        )
                &&& next.vals() == Seq::new(
                    cur.len() as nat,
                    |i: int| cur.vals()[i].sub_spec(dot(pv.row(i), residual.vals())),
                )
            }
    } else {
        next.vals() == cur.vals()
    }
}

/// One Gauss-Newton step against the problem's model: the Jacobian and
/// residual are the modeled values at `cur`, and the update follows
/// [`gn_update_ok`].
pub open spec fn gn_step_rel<T: Real, F: Optim<T>>(func: F, cur: Vector<T>, next: Vector<T>) -> bool {
    exists|jac: Matrix<T>, res: Vector<T>|
        {
            &&& jac.wf()
            &&& jac.rows() == func.jacobian_spec(cur).rows()
            &&& jac.cols() == cur.len()
            &&& (forall|i: int, j: int|
                0 <= i < jac.rows() && 0 <= j < jac.cols() ==> jac.ent(i, j)
                    == func.jacobian_spec(cur).ent(i, j))
            &&& res.wf()
            &&& res.is_column()
            &&& res.vals() == func.eval_spec(cur).vals()
            &&& gn_update_ok(jac, res, cur, next)
        }
}

/// The result of `iters` Gauss-Newton steps from `x0`: some iterate
/// sequence starts with `x0`'s components, links every consecutive pair
/// by [`gn_step_rel`], and ends with `best`'s components.
pub open spec fn gn_chain<T: Real, F: Optim<T>>(
    func: F,
    iters: int,
    x0: Vector<T>,
    best: Vector<T>,
) -> bool {
    exists|steps: Seq<Vector<T>>|
        {
            &&& steps.len() == iters + 1
            &&& steps[0].vals() == x0.vals()
            &&& (forall|k: int|
                0 <= k < steps.len() ==> (#[trigger] steps[k]).wf() && steps[k].is_column()
                    && steps[k].len() == x0.len())
            &&& (forall|k: int| 0 <= k < iters ==> gn_step_rel(func, #[trigger] steps[k], steps[k + 1]))
            &&& best.vals() == steps[iters].vals()
        }
}

/// One Gauss-Newton update: for the shapes a least-squares problem
/// produces (a Jacobian with at least as many rows as columns and a
/// residual matching its rows), the result is `x` minus the left
/// pseudoinverse of the Jacobian applied to the residual, pinned through
/// the Gram matrix's factor triple; for any other shapes `x` is returned
/// unchanged.
pub fn gauss_newton_step<T: Real>(jacobian: &Matrix<T>, residual: &Vector<T>, x: &Vector<T>) -> (r:
    Vector<T>)
    requires
        jacobian.wf(),
        residual.wf(),
        residual.is_column(),
        x.wf(),
        x.is_column(),
        jacobian.n == x.len(),
    ensures
        r.wf(),
        r.is_column(),
        r.len() == x.len(),
        gn_update_ok(*jacobian, *residual, *x, r),
{
    let rows = jacobian.nrow();
    let cols = jacobian.ncol();
    let (res_rows, _res_cols) = residual.dim();
    if rows >= cols && res_rows == rows {
        let pv = jacobian.pinv();
        let delta = pv.mul_vec(residual);
        let out = x.sub(&delta);
        proof {
            assert(out.vals() =~= Seq::new(
                x.len() as nat,
                |i: int| x.vals()[i].sub_spec(dot(pv.row(i), residual.vals())),
            ));
        }
        out
    } else {
        x.duplicate()
    }
}

/// The Newton direction taken: where the Hessian's elimination has no
/// zero pivot, the solution of `H d = -g` through the Hessian's own
/// factor triple if it passes the descent test `g^T d <= -rho * g^T g`;
/// the negative gradient otherwise.
pub open spec fn newton_direction_ok<T: Real>(
    hessian: Matrix<T>,
    gradient: Vector<T>,
    rho: T,
    r: Vector<T>,
) -> bool {
    let gvals = gradient.vals();
    let negseq = Seq::new(gvals.len(), |i: int| gvals[i].neg_spec());
    if !lu_nonsingular(hessian) {
        r.vals() == negseq
    } else {
        exists|d: LUDec<T>|
            lu_of(hessian, d) && {
                let sol = lu_solve_seq(d, negseq);
                if dot(gvals, sol).le_spec(rho.neg_spec().mul_spec(dot(gvals, gvals))) {
                    r.vals() == sol
                } else {
                    r.vals() == negseq
                }
            }
    }
}

/// One Newton step against the problem's model: the Hessian and the
/// gradient (the first row of the modeled Jacobian) are the modeled
/// values at `cur`, the direction follows [`newton_direction_ok`], and
/// the step moves along it by a factor of one halved at most 4096 times
/// by the line search.
pub open spec fn newton_step_rel<T: Real, F: Hessian<T>>(
    func: F,
    rho: T,
    cur: Vector<T>,
    next: Vector<T>,
) -> bool {
    exists|hess: Matrix<T>, grad: Vector<T>, d: Vector<T>, k: int|
        #![trigger hess.wf(), grad.wf(), d.wf(), halved::<T>(k)]
        {
            &&& hess.wf()
            &&& hess.rows() == cur.len()
            &&& hess.cols() == cur.len()
            &&& (forall|i: int, j: int|
                0 <= i < cur.len() && 0 <= j < cur.len() ==> hess.ent(i, j)
                    == func.hessian_spec(cur).ent(i, j))
            &&& grad.wf()
            &&& grad.is_column()
            &&& grad.len() == cur.len()
            &&& grad.vals() == Seq::new(
                cur.len() as nat,
                |j: int| func.jacobian_spec(cur).ent(0, j),
            )
            &&& d.wf()
            &&& d.is_column()
            &&& d.len() == cur.len()
            &&& newton_direction_ok(hess, grad, rho, d)
            &&& 0 <= k <= 4096
            &&& next.vals() == Seq::new(
                cur.len() as nat,
                |i: int| cur.vals()[i].add_spec(d.vals()[i].mul_spec(halved::<T>(k))),
            )
        }
}

/// The result of `iters` Newton steps from `x0`: some iterate sequence
/// starts with `x0`'s components, links every consecutive pair by
/// [`newton_step_rel`], and ends with `best`'s components.
pub open spec fn newton_chain<T: Real, F: Hessian<T>>(
    func: F,
    rho: T,
    iters: int,
    x0: Vector<T>,
    best: Vector<T>,
) -> bool {
    exists|steps: Seq<Vector<T>>|
        {
            &&& steps.len() == iters + 1
            &&& steps[0].vals() == x0.vals()
            &&& (forall|k: int|
                0 <= k < steps.len() ==> (#[trigger] steps[k]).wf() && steps[k].is_column()
                    && steps[k].len() == x0.len())
            &&& (forall|k: int|
                0 <= k < iters ==> newton_step_rel(func, rho, #[trigger] steps[k], steps[k + 1]))
            &&& best.vals() == steps[iters].vals()
        }
}

/// The Newton search direction: where the Hessian's elimination has no
/// zero pivot and the solved direction passes the descent test
/// `g^T d <= -rho * g^T g`, the solution of `H d = -g` through the
/// Hessian's own factor triple; the negative gradient otherwise.
pub fn newton_direction<T: Real>(hessian: &Matrix<T>, gradient: &Vector<T>, rho: T) -> (r: Vector<
    T,
>)
    requires
        hessian.wf(),
        hessian.m == hessian.n,
        gradient.wf(),
        gradient.is_column(),
        gradient.data.m == hessian.m,
    ensures
        r.wf(),
        r.is_column(),
        r.len() == gradient.len(),
        newton_direction_ok(*hessian, *gradient, rho, r),
{
    let neg_grad = gradient.neg();
    proof {
        assert(neg_grad.vals() =~= Seq::new(
            gradient.vals().len(),
            |i: int| gradient.vals()[i].neg_spec(),
        ));
    }
    match hessian.solve(&neg_grad) {
        Some(d_k_temp) => {
            let grad_abs = gradient.dotp(gradient);
            let grad_d = gradient.dotp(&d_k_temp);
            proof {
                let dec = choose|dd: LUDec<T>|
                    lu_of(*hessian, dd) && d_k_temp.vals() == lu_solve_seq(dd, neg_grad.vals());
                assert(lu_of(*hessian, dec) && d_k_temp.vals() == lu_solve_seq(
                    dec,
                    neg_grad.vals(),
                ));
            }
            if grad_d.le(rho.neg().mul(grad_abs)) {
                proof {
                    assert(newton_direction_ok(*hessian, *gradient, rho, d_k_temp));
                }
                d_k_temp
            } else {
                let ng = gradient.neg();
                proof {
                    assert(ng.vals() =~= neg_grad.vals());
                    assert(newton_direction_ok(*hessian, *gradient, rho, ng));
                }
                ng
            }
        },
        None => {
            let ng = gradient.neg();
            proof {
                assert(ng.vals() =~= neg_grad.vals());
                assert(newton_direction_ok(*hessian, *gradient, rho, ng));
            }
            ng
        },
    }
}

/// Newton's method with an Armijo backtracking line search.
pub struct Newton<T> {
    pub iters: u64,
    pub sigma: T,
    pub rho: T,
}

impl<T: Real> Newton<T> {
    /// Bundles the iteration budget, the Armijo slope factor `sigma` and
    /// the descent-direction threshold `rho`.
    pub fn new(iters: u64, sigma: T, rho: T) -> (r: Newton<T>)
        ensures
            r.iters == iters,
            r.sigma == sigma,
            r.rho == rho,
    {
        Newton { iters, sigma, rho }
    }

    /// Minimizes `func` from the start point `x_0`: the result is the
    /// end of a chain of `iters` Newton steps ([`newton_chain`]), each
    /// taking the direction of [`newton_direction`] against the
    /// problem's modeled Hessian and gradient, halving the step along it
    /// until the Armijo condition holds (a bounded number of times, so
    /// the search always terminates), and stepping.  An empty budget
    /// returns the start point unchanged.
    pub fn minimize<F: Hessian<T>>(&self, func: &F, x_0: &Vector<T>) -> (r: OptimResult<Vector<T>>)
        requires
            x_0.wf(),
            x_0.is_column(),
        ensures
            r.best.wf(),
            r.best.is_column(),
            r.best.len() == x_0.len(),
            self.iters == 0 ==> r.best.vals() == x_0.vals(),
            newton_chain(*func, self.rho, self.iters as int, *x_0, r.best),
    {
        let mut x_n = x_0.duplicate();
        let ghost mut steps: Seq<Vector<T>> = seq![x_n];
        let mut i: u64 = 0;
        while i < self.iters
            invariant
                i <= self.iters,
                x_n.wf() && x_n.is_column() && x_n.len() == x_0.len(),
                i == 0 ==> x_n.vals() == x_0.vals(),
                steps.len() == i + 1,
                steps[0].vals() == x_0.vals(),
                steps[i as int] == x_n,
                forall|k: int|
                    0 <= k < steps.len() ==> (#[trigger] steps[k]).wf() && steps[k].is_column()
                        && steps[k].len() == x_0.len(),
                forall|k: int|
                    0 <= k < i ==> newton_step_rel(
                        *func,
                        self.rho,
                        #[trigger] steps[k],
                        steps[k + 1],
                    ),
            decreases self.iters - i,
        {
            let hessian_x_n = func.hessian(&x_n);
            let grad_x_n = func.jacobian(&x_n).get_row(0).transpose();
            proof {
                assert(grad_x_n.vals() =~= Seq::new(
                    x_n.len() as nat,
                    |j: int| func.jacobian_spec(x_n).ent(0, j),
                ));
            }
            let d_k = newton_direction(&hessian_x_n, &grad_x_n, self.rho);
            // Backtracking line search on the Armijo-Goldstein condition.
            let mut alpha = T::one();
            let mut r_point = x_n.add(&d_k.mul_scalar(alpha));
            let mut f_r = func.eval(&r_point).get(0);
            let f_x_n = func.eval(&x_n).get(0);
            let temp = grad_x_n.dotp(&d_k);
            let two = T::one().add(T::one());
            proof {
                assert(alpha == halved::<T>(0));
            }
            // A float step factor underflows to zero long before this
            // many halvings, making the condition fail; the explicit
            // budget makes the search terminate for every scalar type.
            let mut halvings: u32 = 0;
            while f_x_n.add(temp.mul(self.sigma.mul(alpha))).lt(f_r) && halvings < 4096
                invariant
                    halvings <= 4096,
                    x_n.wf() && x_n.is_column() && x_n.len() == x_0.len(),
                    d_k.wf() && d_k.data.m == x_n.data.m && d_k.data.n == x_n.data.n,
                    two == T::one_spec().add_spec(T::one_spec()),
                    alpha == halved::<T>(halvings as int),
                decreases 4096 - halvings,
            {
                alpha = alpha.div(two);
                r_point = x_n.add(&d_k.mul_scalar(alpha));
                f_r = func.eval(&r_point).get(0);
                halvings = halvings + 1;
            }
            let ghost prev = x_n;
            x_n = x_n.add(&d_k.mul_scalar(alpha));
            proof {
                assert(x_n.vals() =~= Seq::new(
                    prev.len() as nat,
                    |i2: int| prev.vals()[i2].add_spec(d_k.vals()[i2].mul_spec(alpha)),
                ));
                assert(newton_step_rel(*func, self.rho, prev, x_n));
                steps = steps.push(x_n);
            }
            i = i + 1;
        }
        OptimResult::new(x_n)
    }
}

} // verus!
