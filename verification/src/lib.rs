//! Dense linear algebra with exact entry-level contracts, and ordinary
//! differential equation solvers built on top of it.
//!
//! Every algorithm is generic over a scalar capability set (the traits in
//! [`abstr`]): a type with field arithmetic, a total comparison, absolute
//! value, square root and powers can drive the whole library.  The matrix
//! decompositions — LU with partial pivoting ([`lu`]), QR by Givens
//! rotations ([`qr`]), Cholesky ([`cholesky`]), Hessenberg reduction
//! ([`hessenberg`]) — pin every entry of their factors to a spec-level
//! replay of the algorithm over the abstract scalar operations; the
//! triangular [`substitute`] engine and the [`solve`] facade compose
//! them.  The integrators ([`adaptive_stepper`], [`dormandprince54`],
//! [`fixed_stepper`], [`implicit_euler`]) promise the structure of their
//! trajectories, above all that no recorded time ever exceeds the stop
//! time; [`newton_raphson`] and [`optimization`] drive the solve facade
//! from user-supplied problem descriptors.

pub mod abstr;
pub mod matrix;
pub mod vector;
pub mod substitute;
pub mod lu;
pub mod cholesky;
pub mod qr;
pub mod hessenberg;
pub mod solve;
pub mod eigen;
pub mod ode;
pub mod adaptive_stepper;
pub mod dormandprince54;
pub mod jacobian;
pub mod newton_raphson;
pub mod fixed_stepper;
pub mod implicit_euler;
pub mod optimization;
