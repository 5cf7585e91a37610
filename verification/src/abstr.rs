//! The scalar capability set.
//!
//! Every algorithm in this library is parameterized by a scalar type through
//! the traits below, culminating in [`Real`].  Each executable operation is
//! pinned to an abstract specification function of the same implementation:
//! the contract states that the operation is a pure function of its operands,
//! which is what the algorithms' own contracts are built on.  The contracts
//! deliberately claim nothing about the numerical values the operations
//! produce; rounding behaviour belongs to the implementing type.
//!
//! Implementations written outside this crate (for example a wrapper around a
//! machine float) are not themselves verified; the library's theorems hold of
//! an implementation exactly as far as its operations really are pure
//! functions of their operands and its comparison really is reported by
//! `lt`/`le`.

use vstd::prelude::*;

verus! {

/// A type equipped with additive and multiplicative identity elements.
///
/// `zero()` and `one()` always return the same two abstract values,
/// `zero_spec()` and `one_spec()`; the structural contracts of the matrix
/// decompositions (a unit diagonal, entries that were never touched) are
/// stated in terms of these values.
pub trait Identity: Sized + Copy {
    /// The additive identity as an abstract value.
    spec fn zero_spec() -> Self;

    /// The multiplicative identity as an abstract value.
    spec fn one_spec() -> Self;

    /// Returns the additive identity.
    fn zero() -> (r: Self)
        ensures
            r == Self::zero_spec(),
    ;

    /// Returns the multiplicative identity.
    fn one() -> (r: Self)
        ensures
            r == Self::one_spec(),
    ;

    /// Whether this value counts as zero, as an abstract predicate.  (For a
    /// float this is the numerical test, which also accepts a negative
    /// zero; it is therefore a different notion than equality with
    /// `zero_spec`.)
    spec fn eq_zero_spec(self) -> bool;

    /// Tests whether the value counts as zero.
    fn eq_zero(self) -> (r: bool)
        ensures
            r == self.eq_zero_spec(),
    ;
}

/// A type with a comparison, reported faithfully by the executable tests.
///
/// Nothing is assumed of the relation itself (it need not be reflexive: a
/// float's ordering is not), so every algorithm states which comparisons it
/// performed rather than what order the values stand in.
pub trait Lattice: Sized + Copy {
    /// The strict comparison as an abstract relation.
    spec fn lt_spec(self, other: Self) -> bool;

    /// The non-strict comparison as an abstract relation.
    spec fn le_spec(self, other: Self) -> bool;

    /// Tests `self < other`.
    fn lt(self, other: Self) -> (r: bool)
        ensures
            r == self.lt_spec(other),
    ;

    /// Tests `self <= other`.
    fn le(self, other: Self) -> (r: bool)
        ensures
            r == self.le_spec(other),
    ;
}

/// Field arithmetic: total binary operations pinned to abstract counterparts.
///
/// Division is total; a type whose division cannot fail on a zero divisor
/// (as a float's cannot) fits directly.  The library never relies on
/// algebraic laws of these operations, only on their being functions of
/// their operands.
pub trait Field: Identity {
    /// The sum as an abstract value.
    spec fn add_spec(self, other: Self) -> Self;

    /// The difference as an abstract value.
    spec fn sub_spec(self, other: Self) -> Self;

    /// The product as an abstract value.
    spec fn mul_spec(self, other: Self) -> Self;

    /// The quotient as an abstract value.
    spec fn div_spec(self, other: Self) -> Self;

    /// The additive inverse as an abstract value.
    spec fn neg_spec(self) -> Self;

    /// Adds two scalars.
    fn add(self, other: Self) -> (r: Self)
        ensures
            r == self.add_spec(other),
    ;

    /// Subtracts `other` from `self`.
    fn sub(self, other: Self) -> (r: Self)
        ensures
            r == self.sub_spec(other),
    ;

    /// Multiplies two scalars.
    fn mul(self, other: Self) -> (r: Self)
        ensures
            r == self.mul_spec(other),
    ;

    /// Divides `self` by `other`.
    fn div(self, other: Self) -> (r: Self)
        ensures
            r == self.div_spec(other),
    ;

    /// Negates a scalar.
    fn neg(self) -> (r: Self)
        ensures
            r == self.neg_spec(),
    ;
}

/// Conversions and the magnitude operation.
pub trait Scalar: Sized + Copy {
    /// The value a signed machine integer converts to.
    spec fn from_i64_spec(v: i64) -> Self;

    /// The absolute value as an abstract value.
    spec fn abs_spec(self) -> Self;

    /// Converts a signed machine integer into the scalar type.
    fn from_i64(v: i64) -> (r: Self)
        ensures
            r == Self::from_i64_spec(v),
    ;

    /// Returns the absolute value.
    fn abs(self) -> (r: Self)
        ensures
            r == self.abs_spec(),
    ;

    /// Converts the scalar to a machine size, for use as an iteration count.
    /// Nothing is promised of the result; callers treat it as a budget.
    fn to_usize(self) -> usize;
}

/// The full capability set: a float-like type that can drive every
/// algorithm in this library.
pub trait Real: Field + Scalar + Lattice {
    /// The square root as an abstract value.
    spec fn sqrt_spec(self) -> Self;

    /// The power as an abstract value.
    spec fn pow_spec(self, exponent: Self) -> Self;

    /// Returns the square root.
    fn sqrt(self) -> (r: Self)
        ensures
            r == self.sqrt_spec(),
    ;

    /// Raises `self` to the power `exponent`.
    fn pow(self, exponent: Self) -> (r: Self)
        ensures
            r == self.pow_spec(exponent),
    ;

    /// The smaller operand, as an abstract value.  Which of two unordered
    /// operands it denotes is the implementation's business; that it is
    /// one of the two is promised below.
    spec fn min_spec(self, other: Self) -> Self;

    /// The larger operand, as an abstract value; mirrors
    /// [`Real::min_spec`].
    spec fn max_spec(self, other: Self) -> Self;

    /// Returns one of the two operands, the smaller where the order can
    /// tell them apart.  `r == self || r == other` holds of a float's
    /// `min` even when a comparand is not ordered.
    fn min(self, other: Self) -> (r: Self)
        ensures
            r == self.min_spec(other),
            r == self || r == other,
    ;

    /// Returns one of the two operands, the larger where the order can
    /// tell them apart; the promise mirrors [`Real::min`].
    fn max(self, other: Self) -> (r: Self)
        ensures
            r == self.max_spec(other),
            r == self || r == other,
    ;
}

/// The value of `num / den` in the scalar type, as an abstract value.
pub open spec fn ratio_spec<T: Field + Scalar>(num: i64, den: i64) -> T {
    T::from_i64_spec(num).div_spec(T::from_i64_spec(den))
}

/// Builds the scalar `num / den` from two machine integers.
///
/// Every constant the algorithms need (tableau coefficients, step-control
/// factors, tolerances) is a ratio of integers, so this is the only
/// constant-construction path the library uses.
pub fn ratio<T: Field + Scalar>(num: i64, den: i64) -> (r: T)
    ensures
        r == ratio_spec::<T>(num, den),
{
    let n: T = T::from_i64(num);
    let d: T = T::from_i64(den);
    n.div(d)
}

} // verus!
