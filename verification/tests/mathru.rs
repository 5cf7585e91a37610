use mathru::abstr::{Field, Identity, Lattice, Real, Scalar};
use mathru::eigen::GenEigenDec;
use mathru::adaptive_stepper::AdaptiveStepper;
use mathru::cholesky::CholeskyDec;
use mathru::dormandprince54::DormandPrince54;
use mathru::implicit_euler::ImplicitEuler;
use mathru::jacobian::{Function, Jacobian};
use mathru::lu::LUDec;
use mathru::matrix::Matrix;
use mathru::newton_raphson::NewtonRaphson;
use mathru::ode::{ExplicitODE, ImplicitODE};
use mathru::optimization::{GaussNewton, Newton, Optim};
use mathru::qr::QRDec;
use mathru::solve::{Inverse, Solve};
use mathru::substitute::Substitute;
use mathru::vector::Vector;

#[derive(Clone, Copy, Debug, PartialEq)]
pub struct F64(pub f64);

// The `*_spec` items back the library's contracts.  In the compiled
// library they are ordinary, never-called methods; they are implemented
// here as the very operations they model.
impl Identity for F64 {
    fn zero_spec() -> F64 {
        F64(0.0)
    }
    fn one_spec() -> F64 {
        F64(1.0)
    }
    fn eq_zero_spec(self) -> bool {
        self.0 == 0.0
    }
    fn zero() -> F64 {
        F64(0.0)
    }
    fn one() -> F64 {
        F64(1.0)
    }
    fn eq_zero(self) -> bool {
        self.0 == 0.0
    }
}

impl Lattice for F64 {
    fn lt_spec(self, other: F64) -> bool {
        self.0 < other.0
    }
    fn le_spec(self, other: F64) -> bool {
        self.0 <= other.0
    }
    fn lt(self, other: F64) -> bool {
        self.0 < other.0
    }
    fn le(self, other: F64) -> bool {
        self.0 <= other.0
    }
}

impl Field for F64 {
    fn add_spec(self, other: F64) -> F64 {
        F64(self.0 + other.0)
    }
    fn sub_spec(self, other: F64) -> F64 {
        F64(self.0 - other.0)
    }
    fn mul_spec(self, other: F64) -> F64 {
        F64(self.0 * other.0)
    }
    fn div_spec(self, other: F64) -> F64 {
        F64(self.0 / other.0)
    }
    fn neg_spec(self) -> F64 {
        F64(-self.0)
    }
    fn add(self, other: F64) -> F64 {
        F64(self.0 + other.0)
    }
    fn sub(self, other: F64) -> F64 {
        F64(self.0 - other.0)
    }
    fn mul(self, other: F64) -> F64 {
        F64(self.0 * other.0)
    }
    fn div(self, other: F64) -> F64 {
        F64(self.0 / other.0)
    }
    fn neg(self) -> F64 {
        F64(-self.0)
    }
}

impl Scalar for F64 {
    fn from_i64_spec(v: i64) -> F64 {
        F64(v as f64)
    }
    fn abs_spec(self) -> F64 {
        F64(self.0.abs())
    }
    fn from_i64(v: i64) -> F64 {
        F64(v as f64)
    }
    fn abs(self) -> F64 {
        F64(self.0.abs())
    }
    fn to_usize(self) -> usize {
        self.0 as usize
    }
}

impl Real for F64 {
    fn sqrt_spec(self) -> F64 {
        F64(self.0.sqrt())
    }
    fn pow_spec(self, exponent: F64) -> F64 {
        F64(self.0.powf(exponent.0))
    }
    fn min_spec(self, other: F64) -> F64 {
        F64(self.0.min(other.0))
    }
    fn max_spec(self, other: F64) -> F64 {
        F64(self.0.max(other.0))
    }
    fn sqrt(self) -> F64 {
        F64(self.0.sqrt())
    }
    fn pow(self, exponent: F64) -> F64 {
        F64(self.0.powf(exponent.0))
    }
    fn min(self, other: F64) -> F64 {
        F64(self.0.min(other.0))
    }
    fn max(self, other: F64) -> F64 {
        F64(self.0.max(other.0))
    }
}

#[derive(Clone, Copy, Debug, PartialEq)]
pub struct F32(pub f32);

impl Identity for F32 {
    fn zero_spec() -> F32 {
        F32(0.0)
    }
    fn one_spec() -> F32 {
        F32(1.0)
    }
    fn eq_zero_spec(self) -> bool {
        self.0 == 0.0
    }
    fn zero() -> F32 {
        F32(0.0)
    }
    fn one() -> F32 {
        F32(1.0)
    }
    fn eq_zero(self) -> bool {
        self.0 == 0.0
    }
}

impl Lattice for F32 {
    fn lt_spec(self, other: F32) -> bool {
        self.0 < other.0
    }
    fn le_spec(self, other: F32) -> bool {
        self.0 <= other.0
    }
    fn lt(self, other: F32) -> bool {
        self.0 < other.0
    }
    fn le(self, other: F32) -> bool {
        self.0 <= other.0
    }
}

impl Field for F32 {
    fn add_spec(self, other: F32) -> F32 {
        F32(self.0 + other.0)
    }
    fn sub_spec(self, other: F32) -> F32 {
        F32(self.0 - other.0)
    }
    fn mul_spec(self, other: F32) -> F32 {
        F32(self.0 * other.0)
    }
    fn div_spec(self, other: F32) -> F32 {
        F32(self.0 / other.0)
    }
    fn neg_spec(self) -> F32 {
        F32(-self.0)
    }
    fn add(self, other: F32) -> F32 {
        F32(self.0 + other.0)
    }
    fn sub(self, other: F32) -> F32 {
        F32(self.0 - other.0)
    }
    fn mul(self, other: F32) -> F32 {
        F32(self.0 * other.0)
    }
    fn div(self, other: F32) -> F32 {
        F32(self.0 / other.0)
    }
    fn neg(self) -> F32 {
        F32(-self.0)
    }
}

impl Scalar for F32 {
    fn from_i64_spec(v: i64) -> F32 {
        F32(v as f32)
    }
    fn abs_spec(self) -> F32 {
        F32(self.0.abs())
    }
    fn from_i64(v: i64) -> F32 {
        F32(v as f32)
    }
    fn abs(self) -> F32 {
        F32(self.0.abs())
    }
    fn to_usize(self) -> usize {
        self.0 as usize
    }
}

impl Real for F32 {
    fn sqrt_spec(self) -> F32 {
        F32(self.0.sqrt())
    }
    fn pow_spec(self, exponent: F32) -> F32 {
        F32(self.0.powf(exponent.0))
    }
    fn min_spec(self, other: F32) -> F32 {
        F32(self.0.min(other.0))
    }
    fn max_spec(self, other: F32) -> F32 {
        F32(self.0.max(other.0))
    }
    fn sqrt(self) -> F32 {
        F32(self.0.sqrt())
    }
    fn pow(self, exponent: F32) -> F32 {
        F32(self.0.powf(exponent.0))
    }
    fn min(self, other: F32) -> F32 {
        F32(self.0.min(other.0))
    }
    fn max(self, other: F32) -> F32 {
        F32(self.0.max(other.0))
    }
}

/// Builds a matrix from row-major `f64` entries.
pub fn mat64(rows: usize, cols: usize, row_major: &[f64]) -> Matrix<F64> {
    assert_eq!(row_major.len(), rows * cols);
    let mut data: Vec<F64> = Vec::new();
    for j in 0..cols {
        for i in 0..rows {
            data.push(F64(row_major[i * cols + j]));
        }
    }
    Matrix::new(rows, cols, data)
}

pub fn mat32(rows: usize, cols: usize, row_major: &[f32]) -> Matrix<F32> {
    assert_eq!(row_major.len(), rows * cols);
    let mut data: Vec<F32> = Vec::new();
    for j in 0..cols {
        for i in 0..rows {
            data.push(F32(row_major[i * cols + j]));
        }
    }
    Matrix::new(rows, cols, data)
}

pub fn col64(vals: &[f64]) -> Vector<F64> {
    Vector::new_column(vals.iter().map(|v| F64(*v)).collect())
}

pub fn col32(vals: &[f32]) -> Vector<F32> {
    Vector::new_column(vals.iter().map(|v| F32(*v)).collect())
}

pub fn mat_close(a: &Matrix<F64>, b: &Matrix<F64>, tol: f64) -> bool {
    let (am, an) = a.dim();
    let (bm, bn) = b.dim();
    if am != bm || an != bn {
        return false;
    }
    for i in 0..am {
        for j in 0..an {
            if (a.get(i, j).0 - b.get(i, j).0).abs() > tol {
                return false;
            }
        }
    }
    true
}

pub fn mat_eq32(a: &Matrix<F32>, b: &Matrix<F32>) -> bool {
    let (am, an) = a.dim();
    let (bm, bn) = b.dim();
    if am != bm || an != bn {
        return false;
    }
    for i in 0..am {
        for j in 0..an {
            if a.get(i, j).0 != b.get(i, j).0 {
                return false;
            }
        }
    }
    true
}

pub fn vec_eq32(a: &Vector<F32>, b: &Vector<F32>) -> bool {
    let (am, an) = a.dim();
    let (bm, bn) = b.dim();
    if am != bm || an != bn {
        return false;
    }
    for i in 0..am.max(an) {
        if a.get(i).0 != b.get(i).0 {
            return false;
        }
    }
    true
}

#[test]
fn add_f32() {
    let a = mat32(2, 3, &[1.0, -2.0, -3.0, -4.0, -1.0, -2.5]);
    let b = mat32(2, 3, &[-2.0, -7.0, 3.0, -5.0, 3.5, 0.0]);
    let sum_ref = mat32(2, 3, &[-1.0, -9.0, 0.0, -9.0, 2.5, -2.5]);
    assert!(mat_eq32(&sum_ref, &a.add(&b)));
}

#[test]
fn add_f64() {
    let a = mat64(2, 3, &[1.0, -2.0, -3.0, -4.0, -1.0, -2.5]);
    let b = mat64(2, 3, &[-2.0, -7.0, 3.0, -5.0, 3.5, 0.0]);
    let sum_ref = mat64(2, 3, &[-1.0, -9.0, 0.0, -9.0, 2.5, -2.5]);
    assert!(mat_close(&sum_ref, &a.add(&b), 0.0));
}

#[test]
fn add_add_assign_matrix() {
    let mut a = mat32(2, 3, &[1.0, -2.0, -3.0, -4.0, -1.0, -2.5]);
    let b = mat32(2, 3, &[6.0, 3.0, 2.0, 1.0, 4.0, 2.5]);
    let sum_ref = mat32(2, 3, &[7.0, 1.0, -1.0, -3.0, 3.0, 0.0]);
    a.add_assign(&b);
    assert!(mat_eq32(&sum_ref, &a));
}

#[test]
fn add_add_assign_scalar() {
    let mut a = mat32(2, 3, &[1.0, -2.0, -3.0, -4.0, -1.0, -2.5]);
    a.add_assign_scalar(F32(5.0));
    let sum = mat32(2, 3, &[6.0, 3.0, 2.0, 1.0, 4.0, 2.5]);
    assert!(mat_eq32(&sum, &a));
}

#[test]
fn add_owner() {
    let a = col32(&[1.0, 2.0, 3.0, 4.0, 5.0]);
    let b = col32(&[1.0, 4.0, -1.0, 0.0, -7.0]);
    let res_ref = col32(&[2.0, 6.0, 2.0, 4.0, -2.0]);
    let res = a.add(&b);
    assert!(vec_eq32(&res_ref, &res));
}

#[test]
fn add_borrow() {
    let a = col32(&[1.0, 2.0, 3.0, 4.0, 5.0]);
    let b = col32(&[1.0, 4.0, -1.0, 0.0, -7.0]);
    let res_ref = col32(&[2.0, 6.0, 2.0, 4.0, -2.0]);
    let res = (&a).add(&b);
    assert!(vec_eq32(&res, &res_ref));
}

#[test]
fn scalar_add_owner() {
    let a = col32(&[1.0, 2.0, 3.0, 4.0, 5.0]);
    let res_ref = col32(&[6.0, 7.0, 8.0, 9.0, 10.0]);
    let res = a.add_scalar(F32(5.0));
    assert!(vec_eq32(&res, &res_ref));
}

#[test]
fn add_assign_matrix() {
    let mut a = col32(&[1.0, -2.0, -3.0]);
    let b = col32(&[6.0, 3.0, 2.0]);
    let sum_ref = col32(&[7.0, 1.0, -1.0]);
    a.add_assign(&b);
    assert!(vec_eq32(&sum_ref, &a));
}

#[test]
fn add_assign_scalar() {
    let mut a = col32(&[1.0, -2.0, -3.0]);
    a.add_assign_scalar(F32(5.0));
    let sum = col32(&[6.0, 3.0, 2.0]);
    assert!(vec_eq32(&sum, &a));
}

#[test]
fn mul_exact() {
    let a = mat64(2, 2, &[1.0, 3.0, 0.0, -7.0]);
    let b = mat64(2, 2, &[1.0, 3.0, 0.0, -7.0]);
    let res_ref = mat64(2, 2, &[1.0, -18.0, 0.0, 49.0]);
    assert!(mat_close(&res_ref, &a.mul(&b), 0.0));
}

#[test]
fn lu_factors() {
    // P1: the factors of a pivoted LU are structurally sound and
    // reproduce the permuted input within floating tolerance.
    let a = mat64(
        3,
        3,
        &[1.0, -2.0, 3.0, 2.0, -5.0, 12.0, 0.0, 2.0, -10.0],
    );
    let (l, u, p) = a.dec_lu().lup();
    // L is unit lower triangular, U upper triangular.
    for i in 0..3 {
        assert_eq!(l.get(i, i).0, 1.0);
        for j in 0..3 {
            if j > i {
                assert_eq!(l.get(i, j).0, 0.0);
            }
            if i > j {
                assert_eq!(u.get(i, j).0, 0.0);
            }
        }
    }
    // P is a permutation matrix: exactly one one per row and column.
    for i in 0..3 {
        let mut row_ones = 0;
        let mut col_ones = 0;
        for j in 0..3 {
            let rv = p.get(i, j).0;
            let cv = p.get(j, i).0;
            assert!(rv == 0.0 || rv == 1.0);
            if rv == 1.0 {
                row_ones += 1;
            }
            if cv == 1.0 {
                col_ones += 1;
            }
        }
        assert_eq!(row_ones, 1);
        assert_eq!(col_ones, 1);
    }
    // P * A == L * U within tolerance.
    let pa = p.mul(&a);
    let lu = l.mul(&u);
    assert!(mat_close(&pa, &lu, 1e-9));
}

#[test]
fn lu_zero_pivot_column() {
    // A rank-deficient matrix must not panic; the factors keep their
    // structural shape.
    let a = mat64(3, 3, &[0.0, 1.0, 2.0, 0.0, 3.0, 4.0, 0.0, 5.0, 6.0]);
    let (l, u, p) = a.dec_lu().lup();
    for i in 0..3 {
        assert_eq!(l.get(i, i).0, 1.0);
        for j in 0..3 {
            if i > j {
                assert_eq!(u.get(i, j).0, 0.0);
            }
        }
    }
    let pa = p.mul(&a);
    let lu = l.mul(&u);
    assert!(mat_close(&pa, &lu, 1e-9));
}

#[test]
fn cholesky_round_trip() {
    // P2: for a symmetric positive definite matrix, L * L^T == A within
    // tolerance.
    let a = mat64(
        3,
        3,
        &[2.0, -1.0, 0.0, -1.0, 2.0, -1.0, 0.0, -1.0, 2.0],
    );
    let l = a.dec_cholesky().unwrap().l();
    let llt = l.mul(&l.transpose());
    assert!(mat_close(&llt, &a, 1e-12));
    for i in 0..3 {
        for j in 0..3 {
            if j > i {
                assert_eq!(l.get(i, j).0, 0.0);
            }
        }
    }
}

#[test]
fn cholesky_not_positive_definite() {
    // P2: a matrix with a negative diagonal pivot reports failure, it
    // does not panic.
    let a = mat64(2, 2, &[-1.0, 0.0, 0.0, 2.0]);
    assert!(a.dec_cholesky().is_none());
    let b = mat64(2, 2, &[1.0, 2.0, 2.0, 1.0]);
    assert!(b.dec_cholesky().is_none());
}

#[test]
fn cholesky_one_by_one() {
    let a = mat64(1, 1, &[9.0]);
    let l = a.dec_cholesky().unwrap().l();
    assert_eq!(l.get(0, 0).0, 3.0);
}

#[test]
fn qr_round_trip() {
    // P3: Q * R == A, Q^T * Q == I within tolerance, R upper triangular.
    let a = mat64(
        3,
        3,
        &[12.0, -51.0, 4.0, 6.0, 167.0, -68.0, -4.0, 24.0, -41.0],
    );
    let dec: QRDec<F64> = a.dec_qr();
    let (q, r) = dec.qr();
    let qr = q.mul(&r);
    assert!(mat_close(&qr, &a, 1e-9));
    let qtq = q.transpose().mul(&q);
    let eye = Matrix::<F64>::one(3);
    assert!(mat_close(&qtq, &eye, 1e-12));
    for i in 0..3 {
        for j in 0..3 {
            if i > j {
                assert_eq!(r.get(i, j).0, 0.0);
            }
        }
    }
}

#[test]
fn qr_rectangular() {
    let a = mat64(3, 2, &[1.0, 2.0, 3.0, 4.0, 5.0, 6.0]);
    let (q, r) = a.dec_qr().qr();
    assert_eq!(q.dim(), (3, 2));
    assert_eq!(r.dim(), (2, 2));
    let qr = q.mul(&r);
    assert!(mat_close(&qr, &a, 1e-12));
    assert_eq!(r.get(1, 0).0, 0.0);
    let qtq = q.transpose().mul(&q);
    let eye = Matrix::<F64>::one(2);
    assert!(mat_close(&qtq, &eye, 1e-12));
}

#[test]
fn hessenberg_similarity() {
    // P4: Q * H * Q^T == A within tolerance; H has zero entries strictly
    // below the first subdiagonal.
    let a = mat64(
        3,
        3,
        &[1.0, 5.0, 3.0, 1.0, 0.0, -7.0, 3.0, 8.0, 9.0],
    );
    let (q, h) = a.dec_hessenberg();
    let qhqt = q.mul(&h).mul(&q.transpose());
    assert!(mat_close(&qhqt, &a, 1e-9));
    for i in 0..3 {
        for j in 0..3 {
            if i > j + 1 {
                assert_eq!(h.get(i, j).0, 0.0);
            }
        }
    }
}

#[test]
fn solve_round_trip() {
    // P5: A * solve(A, b) == b within tolerance.
    let a = mat64(
        3,
        3,
        &[4.0, 1.0, -2.0, 1.0, 3.0, 0.5, -2.0, 0.5, 5.0],
    );
    let b = col64(&[1.0, -7.0, 2.5]);
    let x = a.solve(&b).unwrap();
    let ax = a.mul_vec(&x);
    for i in 0..3 {
        assert!((ax.get(i).0 - b.get(i).0).abs() < 1e-9);
    }
}

#[test]
fn lu_dec_solve() {
    let a = mat64(2, 2, &[1.0, 2.0, -3.0, -7.0]);
    let dec: LUDec<F64> = a.dec_lu();
    let b = col64(&[1.0, 3.0]);
    let x = dec.solve(&b).unwrap();
    let ax = a.mul_vec(&x);
    for i in 0..2 {
        assert!((ax.get(i).0 - b.get(i).0).abs() < 1e-12);
    }
}

#[test]
fn inverse_round_trip() {
    let a = mat64(2, 2, &[1.0, 0.0, 3.0, -7.0]);
    let a_inv = a.inv().unwrap();
    let prod = a.mul(&a_inv);
    let eye = Matrix::<F64>::one(2);
    assert!(mat_close(&prod, &eye, 1e-12));
}

#[test]
fn substitution_idempotence() {
    // P6: forward-substituting L against L * x recovers x up to floating
    // epsilon.
    let l = mat64(3, 3, &[2.0, 0.0, 0.0, -1.0, 4.0, 0.0, 0.5, 3.0, 1.5]);
    let x = col64(&[1.25, -2.5, 4.0]);
    let lx = l.mul_vec(&x);
    let recovered = l.substitute_forward(lx);
    for i in 0..3 {
        assert!((recovered.get(i).0 - x.get(i).0).abs() < 1e-12);
    }
    // The backward pass mirrors it for an upper triangular matrix.
    let u = l.transpose();
    let ux = u.mul_vec(&x);
    let back = u.substitute_backward(ux);
    for i in 0..3 {
        assert!((back.get(i).0 - x.get(i).0).abs() < 1e-12);
    }
}

pub struct Decay;

// As with the scalar traits, the `*_spec` items back the library's
// contracts; compiled as ordinary, never-called methods, they are
// implemented as the queries they model.
impl ExplicitODE<F64> for Decay {
    fn func_spec(&self, t: F64, x: Vector<F64>) -> Vector<F64> {
        self.func(&t, &x)
    }
    fn span_spec(&self) -> (F64, F64) {
        self.time_span()
    }
    fn init_spec(&self) -> Vector<F64> {
        self.init_cond()
    }
    fn func(&self, _t: &F64, x: &Vector<F64>) -> Vector<F64> {
        Vector::new_column(vec![F64(-x.get(0).0)])
    }
    fn time_span(&self) -> (F64, F64) {
        (F64(0.0), F64(5.0))
    }
    fn init_cond(&self) -> Vector<F64> {
        Vector::new_column(vec![F64(1.0)])
    }
}

#[test]
fn adaptive_ode_convergence() {
    // P7: dx/dt = -x, x(0) = 1 over [0, 5] lands within 1e-3 of e^-5,
    // and tightening the tolerances only shrinks the error.
    let exact = (-5.0f64).exp();
    let method: DormandPrince54<F64> = DormandPrince54::new(F64(1e-6), F64(0.01), 5000);
    let stepper = AdaptiveStepper::new(
        5000,
        F64(0.02),
        F64(0.8),
        F64(0.001),
        F64(3.0),
        F64(1e-6),
        F64(1e-3),
    );
    let (t, x) = stepper.solve(&Decay, &method).unwrap();
    assert_eq!(t.len(), x.len());
    let err_loose = (x.last().unwrap().get(0).0 - exact).abs();
    assert!(err_loose < 1e-3);
    let tight = AdaptiveStepper::new(
        20000,
        F64(0.02),
        F64(0.8),
        F64(0.001),
        F64(3.0),
        F64(1e-9),
        F64(1e-6),
    );
    let (_t2, x2) = tight.solve(&Decay, &method).unwrap();
    let err_tight = (x2.last().unwrap().get(0).0 - exact).abs();
    assert!(err_tight <= err_loose);
}

#[test]
fn dormand_prince_solver() {
    let method: DormandPrince54<F64> = DormandPrince54::new(F64(1e-7), F64(0.01), 50000);
    let (t, x) = method.solve(&Decay).unwrap();
    assert_eq!(t.len(), x.len());
    let exact = (-5.0f64).exp();
    assert!((x.last().unwrap().get(0).0 - exact).abs() < 1e-3);
}

#[test]
fn dormand_prince_error_exact() {
    let method: DormandPrince54<F64> = DormandPrince54::new(F64(1e-6), F64(0.01), 100);
    let y = col64(&[1.0, 3.0]);
    let y_hat = col64(&[2.0, 1.0]);
    assert_eq!(method.calc_error(&y, &y_hat).0, 2.0);
}

#[test]
fn adaptive_budget_exhaustion() {
    // Exhausting the step budget before the stop time is an error, not a
    // silently truncated trajectory.
    let method: DormandPrince54<F64> = DormandPrince54::new(F64(1e-6), F64(1e-6), 2);
    let stepper = AdaptiveStepper::new(
        2,
        F64(1e-6),
        F64(0.8),
        F64(0.001),
        F64(1.0),
        F64(1e-6),
        F64(1e-3),
    );
    assert!(stepper.solve(&Decay, &method).is_err());
    let dp_short: DormandPrince54<F64> = DormandPrince54::new(F64(1e-6), F64(1e-6), 2);
    assert!(dp_short.solve(&Decay).is_err());
}

pub struct StiffRelaxation;

impl ImplicitODE<F64> for StiffRelaxation {
    fn func_spec(&self, t: F64, x: Vector<F64>) -> Vector<F64> {
        self.func(&t, &x)
    }
    fn jacobian_spec(&self, t: F64, x: Vector<F64>) -> Matrix<F64> {
        self.jacobian(&t, &x)
    }
    fn span_spec(&self) -> (F64, F64) {
        self.time_span()
    }
    fn init_spec(&self) -> Vector<F64> {
        self.init_cond()
    }
    fn func(&self, _t: &F64, x: &Vector<F64>) -> Vector<F64> {
        Vector::new_column(vec![F64(-4.0 * (x.get(0).0 - 2.0))])
    }
    fn jacobian(&self, _t: &F64, _x: &Vector<F64>) -> Matrix<F64> {
        Matrix::new(1, 1, vec![F64(-4.0)])
    }
    fn time_span(&self) -> (F64, F64) {
        (F64(0.0), F64(2.0))
    }
    fn init_cond(&self) -> Vector<F64> {
        Vector::new_column(vec![F64(1.0)])
    }
}

#[test]
fn implicit_euler_stiff() {
    // P8: x' = -4(x - 2), x(0) = 1 over [0, 2] with step 1e-4 stays
    // within 1e-3 of the analytic solution 2 - e^{-4t} at t = 2.
    let solver: ImplicitEuler<F64> = ImplicitEuler::new(F64(0.0001));
    let (t, x) = solver.solve(&StiffRelaxation).unwrap();
    assert_eq!(t.len(), x.len());
    let value = x.last().unwrap().get(0).0;
    let exact = 2.0 - (-4.0f64 * 2.0).exp();
    assert!((value - exact).abs() < 1e-3);
}

#[test]
fn step_clipping() {
    // P9: no recorded time in any trajectory exceeds the stop time.
    let method: DormandPrince54<F64> = DormandPrince54::new(F64(1e-6), F64(0.37), 5000);
    let stepper = AdaptiveStepper::new(
        5000,
        F64(0.37),
        F64(0.8),
        F64(0.001),
        F64(3.0),
        F64(1e-6),
        F64(1e-3),
    );
    let (t, _x) = stepper.solve(&Decay, &method).unwrap();
    for ti in &t {
        assert!(ti.0 <= 5.0);
    }
    let (t2, _x2) = method.solve(&Decay).unwrap();
    for ti in &t2 {
        assert!(ti.0 <= 5.0);
    }
    let solver: ImplicitEuler<F64> = ImplicitEuler::new(F64(0.0003));
    let (t3, _x3) = solver.solve(&StiffRelaxation).unwrap();
    for ti in &t3 {
        assert!(ti.0 <= 2.0);
    }
}

pub struct SquareRootOfFour;

impl Function<F64> for SquareRootOfFour {
    fn eval(&self, x: &Vector<F64>) -> Vector<F64> {
        let v = x.get(0).0;
        Vector::new_column(vec![F64(v * v - 4.0)])
    }
}

impl Jacobian<F64> for SquareRootOfFour {
    fn jacobian(&self, input: &Vector<F64>) -> Matrix<F64> {
        Matrix::new(1, 1, vec![F64(2.0 * input.get(0).0)])
    }
}

#[test]
fn newton_raphson_root() {
    let finder: NewtonRaphson<F64> = NewtonRaphson::new(100, F64(1e-12));
    let root = finder.find_root(&SquareRootOfFour, &col64(&[1.0])).unwrap();
    assert!((root.get(0).0 - 2.0).abs() < 1e-9);
}

#[test]
fn newton_raphson_budget() {
    // A zero iteration budget cannot converge and reports an error.
    let finder: NewtonRaphson<F64> = NewtonRaphson::new(0, F64(1e-12));
    assert!(finder.find_root(&SquareRootOfFour, &col64(&[1.0])).is_err());
}

pub struct Rosenbrock {}

impl Rosenbrock {
    pub fn new() -> Rosenbrock {
        Rosenbrock {}
    }
}

impl Optim<F64> for Rosenbrock {
    fn eval_spec(&self, x: Vector<F64>) -> Vector<F64> {
        self.eval(&x)
    }
    fn jacobian_spec(&self, x: Vector<F64>) -> Matrix<F64> {
        self.jacobian(&x)
    }
    fn eval(&self, input: &Vector<F64>) -> Vector<F64> {
        let x_1 = input.get(0).0;
        let x_2 = input.get(1).0;
        Vector::new_column(vec![
            F64(f64::sqrt(2.0) * (1.0 - x_1)),
            F64(f64::sqrt(200.0) * (x_2 - x_1 * x_1)),
        ])
    }

    fn jacobian(&self, input: &Vector<F64>) -> Matrix<F64> {
        mat64(
            2,
            2,
            &[
                -f64::sqrt(2.0),
                0.0,
                -f64::sqrt(2.0) * input.get(0).0 * f64::sqrt(200.0),
                f64::sqrt(200.0),
            ],
        )
    }
}

#[test]
fn test_minimization() {
    let rosenbrock = Rosenbrock::new();
    let gaussnewton: GaussNewton<F64> = GaussNewton::new(5);
    let x_0 = col64(&[0.0, -0.1]);
    let x_opt = gaussnewton.minimize(&rosenbrock, &x_0).arg();
    assert_eq!(x_opt.get(0).0, 1.0);
    assert_eq!(x_opt.get(1).0, 1.0);
}

pub struct Quadratic;

impl mathru::optimization::Jacobian<F64> for Quadratic {
    fn eval_spec(&self, x: Vector<F64>) -> Vector<F64> {
        self.eval(&x)
    }
    fn jacobian_spec(&self, x: Vector<F64>) -> Matrix<F64> {
        self.jacobian(&x)
    }
    fn eval(&self, x: &Vector<F64>) -> Vector<F64> {
        let a = x.get(0).0 - 3.0;
        let b = x.get(1).0 + 1.0;
        Vector::new_column(vec![F64(a * a + 2.0 * b * b)])
    }
    fn jacobian(&self, x: &Vector<F64>) -> Matrix<F64> {
        let a = x.get(0).0 - 3.0;
        let b = x.get(1).0 + 1.0;
        mat64(1, 2, &[2.0 * a, 4.0 * b])
    }
}

impl mathru::optimization::Hessian<F64> for Quadratic {
    fn hessian_spec(&self, x: Vector<F64>) -> Matrix<F64> {
        self.hessian(&x)
    }
    fn hessian(&self, _x: &Vector<F64>) -> Matrix<F64> {
        mat64(2, 2, &[2.0, 0.0, 0.0, 4.0])
    }
}

#[test]
fn newton_minimize_quadratic() {
    let newton: Newton<F64> = Newton::new(20, F64(0.1), F64(1e-6));
    let x_opt = newton.minimize(&Quadratic, &col64(&[0.0, 0.0])).arg();
    assert!((x_opt.get(0).0 - 3.0).abs() < 1e-6);
    assert!((x_opt.get(1).0 + 1.0).abs() < 1e-6);
}

#[test]
fn cholesky_new_round_trip() {
    let l = mat64(2, 2, &[1.0, 0.0, 2.0, 3.0]);
    let dec: CholeskyDec<F64> = CholeskyDec::new(l);
    let back = dec.l();
    assert_eq!(back.get(1, 0).0, 2.0);
}

#[test]
fn vector_ops_exact() {
    let a = col64(&[3.0, -4.0]);
    let b = col64(&[1.0, 2.0]);
    assert_eq!(a.dotp(&b).0, -5.0);
    let n = a.neg();
    assert_eq!(n.get(0).0, -3.0);
    assert_eq!(n.get(1).0, 4.0);
    let s = a.abs();
    assert_eq!(s.get(1).0, 4.0);
    assert_eq!(s.argmax(), 1);
    let t = a.transpose();
    assert_eq!(t.dim(), (1, 2));
    assert_eq!(t.get(1).0, -4.0);
}

#[test]
fn vector_get_set() {
    let mut a = col64(&[1.0, 0.0, 3.0, -2.0]);
    assert_eq!(a.get(3).0, -2.0);
    a.set(1, F64(-4.0));
    assert_eq!(a.get(1).0, -4.0);
}

#[test]
fn matrix_get_set() {
    let mut a = mat64(2, 2, &[1.0, 0.0, 3.0, -7.0]);
    assert_eq!(a.get(1, 0).0, 3.0);
    a.set(1, 0, F64(-8.0));
    assert_eq!(a.get(1, 0).0, -8.0);
    assert_eq!(a.nrow(), 2);
    assert_eq!(a.ncol(), 2);
}

#[test]
fn qr_already_triangular() {
    // A column whose subdiagonal is already zero exercises the skipped
    // rotation: the factors still reproduce the input exactly.
    let a = mat64(2, 2, &[3.0, 1.0, 0.0, 2.0]);
    let (q, r) = a.dec_qr().qr();
    let qr = q.mul(&r);
    assert!(mat_close(&qr, &a, 0.0));
    assert_eq!(r.get(1, 0).0, 0.0);
}

#[test]
fn cholesky_unordered_diagonal() {
    // A diagonal term that does not compare above zero — here because it
    // is not a number — reports failure instead of panicking.
    let a = mat64(2, 2, &[f64::NAN, 0.0, 0.0, 1.0]);
    assert!(a.dec_cholesky().is_none());
}

#[test]
fn transpose_exact() {
    let a = mat64(2, 3, &[1.0, 2.0, 3.0, 4.0, 5.0, 6.0]);
    let t = a.transpose();
    assert_eq!(t.dim(), (3, 2));
    for i in 0..2 {
        for j in 0..3 {
            assert_eq!(a.get(i, j).0, t.get(j, i).0);
        }
    }
}

#[test]
fn lu_one_by_one() {
    let a = mat64(1, 1, &[4.0]);
    let (l, u, p) = a.dec_lu().lup();
    assert_eq!(l.get(0, 0).0, 1.0);
    assert_eq!(u.get(0, 0).0, 4.0);
    assert_eq!(p.get(0, 0).0, 1.0);
}

#[test]
fn pinv_identity_on_square() {
    // For an invertible square matrix the left pseudoinverse is the
    // inverse: pinv(A) * A is the identity within tolerance.
    let a = mat64(2, 2, &[4.0, 1.0, 2.0, 3.0]);
    let pa = a.pinv().mul(&a);
    let eye = Matrix::<F64>::one(2);
    assert!(mat_close(&pa, &eye, 1e-12));
}

#[test]
fn hessenberg_and_triangle_helpers() {
    let a = mat64(3, 3, &[1.0, 2.0, 3.0, 4.0, 5.0, 6.0, 7.0, 8.0, 9.0]);
    let h = a.duplicate().h();
    assert_eq!(h.get(2, 0).0, 0.0);
    assert_eq!(h.get(1, 0).0, 4.0);
    assert_eq!(h.get(2, 1).0, 8.0);
    let r = a.r();
    assert_eq!(r.get(1, 0).0, 0.0);
    assert_eq!(r.get(2, 0).0, 0.0);
    assert_eq!(r.get(2, 1).0, 0.0);
    assert_eq!(r.get(0, 1).0, 2.0);
    assert_eq!(r.get(2, 2).0, 9.0);
}

#[test]
fn eigen_pair_accessors() {
    let values = col64(&[2.0, 5.0]);
    let vectors = mat64(2, 2, &[1.0, 0.0, 0.0, 1.0]);
    let dec = GenEigenDec::new(values, vectors);
    let (val, vec) = dec.pair();
    assert_eq!(val.get(1).0, 5.0);
    assert_eq!(vec.get(0, 0).0, 1.0);
    let a = mat64(2, 2, &[1.0, 2.0, 3.0, 4.0]);
    let b = mat64(2, 2, &[1.0, 0.0, 0.0, 1.0]);
    a.dec_gen_eigen(b);
}

#[test]
fn stepper_configuration() {
    let mut stepper: AdaptiveStepper<F64> = AdaptiveStepper::new(
        10,
        F64(0.5),
        F64(0.8),
        F64(0.001),
        F64(3.0),
        F64(1e-6),
        F64(1e-3),
    );
    assert_eq!(stepper.get_abs_tol().0, 1e-6);
    assert_eq!(stepper.get_rel_tol().0, 1e-3);
    stepper.set_abs_tol(F64(1e-8));
    stepper.set_rel_tol(F64(1e-5));
    assert_eq!(stepper.get_abs_tol().0, 1e-8);
    assert_eq!(stepper.get_rel_tol().0, 1e-5);
    let mut dp: DormandPrince54<F64> = DormandPrince54::new(F64(1e-6), F64(0.25), 100);
    assert_eq!(dp.get_begin_step_size().0, 0.25);
    dp.set_begin_step_size(F64(0.125));
    assert_eq!(dp.get_begin_step_size().0, 0.125);
    let mut euler: ImplicitEuler<F64> = ImplicitEuler::new(F64(0.5));
    assert_eq!(euler.get_step_size().0, 0.5);
    euler.set_step_size(F64(0.25));
    assert_eq!(euler.get_step_size().0, 0.25);
}

#[test]
fn lu_accessors() {
    let a = mat64(2, 2, &[2.0, 0.0, 0.0, 3.0]);
    let dec = a.dec_lu();
    let l = dec.clone().l();
    let u = dec.clone().u();
    let p = dec.p();
    assert_eq!(l.get(0, 0).0, 1.0);
    assert_eq!(u.get(1, 1).0, 3.0);
    assert_eq!(p.get(0, 0).0, 1.0);
}

#[test]
fn solve_singular_is_none() {
    // A matrix with a zero pivot column is numerically singular: the
    // solve facade and the inverse report the absent result.
    let a = mat64(3, 3, &[0.0, 1.0, 2.0, 0.0, 3.0, 4.0, 0.0, 5.0, 6.0]);
    let b = col64(&[1.0, 1.0, 1.0]);
    assert!(a.solve(&b).is_none());
    assert!(a.solve_vector_r(&b).is_none());
    assert!(a.inv().is_none());
    let rhs = mat64(3, 1, &[1.0, 1.0, 1.0]);
    assert!(a.solve_matrix_r(&rhs).is_none());
}

#[test]
fn newton_raphson_singular_jacobian() {
    // A singular linearized system aborts the search with an error.
    let finder: NewtonRaphson<F64> = NewtonRaphson::new(100, F64(1e-12));
    assert!(finder.find_root(&SquareRootOfFour, &col64(&[0.0])).is_err());
}

#[test]
fn minimize_zero_budget() {
    // An empty iteration budget returns the start point unchanged.
    let gaussnewton: GaussNewton<F64> = GaussNewton::new(0);
    let x_0 = col64(&[0.5, -0.25]);
    let x_opt = gaussnewton.minimize(&Rosenbrock::new(), &x_0).arg();
    assert_eq!(x_opt.get(0).0, 0.5);
    assert_eq!(x_opt.get(1).0, -0.25);
    let newton: Newton<F64> = Newton::new(0, F64(0.1), F64(1e-6));
    let y_opt = newton.minimize(&Quadratic, &col64(&[1.5, 2.5])).arg();
    assert_eq!(y_opt.get(0).0, 1.5);
    assert_eq!(y_opt.get(1).0, 2.5);
}
