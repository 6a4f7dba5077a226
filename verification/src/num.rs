//! The numeric capability an element type must offer.
//!
//! The matrix operations are generic over their element type. Exact
//! operations (building, transposing, multiplying, taking column maxima)
//! ask only for [`Num`]; the activation and loss helpers additionally ask
//! for [`Real`], the narrow real-arithmetic capability they need.
//!
//! Every exec method is tied to a spec-level counterpart, so contracts of
//! the matrix operations can state results exactly, element by element.
//! `i64` implements [`Num`] here with saturating arithmetic; a caller
//! outside the verified world may supply its own element type (for
//! instance a floating-point wrapper) by implementing these traits.

use vstd::prelude::*;

verus! {

/// An element type with exact arithmetic, a zero, and an order test.
///
/// The `*_s` spec functions are the mathematical meaning of the exec
/// methods; each exec method must return exactly its spec counterpart.
/// The laws at the bottom are obligations on every implementation: they
/// are what lets general facts (such as "the mean squared difference of a
/// matrix with itself is zero") be proved once, for every element type.
pub trait Num: Sized + Copy {
    /// The value `zero()` returns.
    spec fn zero_s() -> Self;

    /// The value `a.add(b)` returns.
    spec fn add_s(self, other: Self) -> Self;

    /// The value `a.sub(b)` returns.
    spec fn sub_s(self, other: Self) -> Self;

    /// The value `a.mul(b)` returns.
    spec fn mul_s(self, other: Self) -> Self;

    /// The value `a.lt(b)` returns.
    spec fn lt_s(self, other: Self) -> bool;

    /// Whether laws over this value hold exactly; `true` for every `i64`,
    /// meant to exclude values such as floating-point infinities.
    spec fn exact_s(self) -> bool;

    /// The additive identity, used to seed accumulators.
    fn zero() -> (r: Self)
        ensures
            r == Self::zero_s(),
    ;

    fn add(self, other: Self) -> (r: Self)
        ensures
            r == self.add_s(other),
    ;

    fn sub(self, other: Self) -> (r: Self)
        ensures
            r == self.sub_s(other),
    ;

    fn mul(self, other: Self) -> (r: Self)
        ensures
            r == self.mul_s(other),
    ;

    /// Strict order test, used to keep column maxima.
    fn lt(self, other: Self) -> (r: bool)
        ensures
            r == self.lt_s(other),
    ;

    /// A value subtracted from itself vanishes.
    proof fn law_sub_self(x: Self)
        requires
            x.exact_s(),
        ensures
            x.sub_s(x) == Self::zero_s(),
    ;

    /// Zero is absorbing for multiplication with itself.
    proof fn law_mul_zero()
        ensures
            Self::zero_s().mul_s(Self::zero_s()) == Self::zero_s(),
    ;

    /// Zero is an additive identity on itself.
    proof fn law_add_zero()
        ensures
            Self::zero_s().add_s(Self::zero_s()) == Self::zero_s(),
    ;
}

/// The real-arithmetic capability the activation and loss helpers need
/// beyond [`Num`]: a one, division, division by a count, and the sigmoid
/// curve itself.
///
/// No verified element type offers this capability — real arithmetic
/// lives outside the verified world — so an implementation (for
/// instance over `f64`) is supplied by the caller, and everything proved
/// through this trait holds as far as that implementation keeps its
/// obligations.
pub trait Real: Num {
    /// The value `one()` returns.
    spec fn one_s() -> Self;

    /// The value `a.div(b)` returns.
    spec fn div_s(self, other: Self) -> Self;

    /// The value `a.div_n(n)` returns.
    spec fn div_n_s(self, n: usize) -> Self;

    /// The value `a.sigmoid()` returns.
    spec fn sigmoid_s(self) -> Self;

    /// The multiplicative identity, used by the sigmoid derivative.
    fn one() -> (r: Self)
        ensures
            r == Self::one_s(),
    ;

    fn div(self, other: Self) -> (r: Self)
        ensures
            r == self.div_s(other),
    ;

    /// Division by a count, used to turn a sum into a mean.
    fn div_n(self, n: usize) -> (r: Self)
        ensures
            r == self.div_n_s(n),
    ;

    /// The logistic curve `1 / (1 + e^-x)`.
    fn sigmoid(self) -> (r: Self)
        ensures
            r == self.sigmoid_s(),
    ;

    /// Zero split over a positive count stays zero.
    proof fn law_div_n_zero(n: usize)
        requires
            n >= 1,
        ensures
            Self::zero_s().div_n_s(n) == Self::zero_s(),
    ;
}

/// Exact `i64` elements with saturating arithmetic: a sum, difference or
/// product that would leave the `i64` range is clamped to `i64::MIN` or
/// `i64::MAX`.
impl Num for i64 {
    open spec fn zero_s() -> i64 {
        0i64
    }

    open spec fn add_s(self, other: i64) -> i64 {
        if self + other > i64::MAX {
            i64::MAX
        } else if self + other < i64::MIN {
            i64::MIN
        } else {
            (self + other) as i64
        }
    }

    open spec fn sub_s(self, other: i64) -> i64 {
        if self - other > i64::MAX {
            i64::MAX
        } else if self - other < i64::MIN {
            i64::MIN
        } else {
            (self - other) as i64
        }
    }

    open spec fn mul_s(self, other: i64) -> i64 {
        if self * other > i64::MAX {
            i64::MAX
        } else if self * other < i64::MIN {
            i64::MIN
        } else {
            (self * other) as i64
        }
    }

    open spec fn lt_s(self, other: i64) -> bool {
        self < other
    }

    open spec fn exact_s(self) -> bool {
        true
    }

    fn zero() -> i64 {
        0i64
    }

    fn add(self, other: i64) -> i64 {
        match self.checked_add(other) {
            Some(v) => v,
            None => if self > 0 {
                i64::MAX
            } else {
                i64::MIN
            },
        }
    }

    fn sub(self, other: i64) -> i64 {
        match self.checked_sub(other) {
            Some(v) => v,
            None => if self >= 0 {
                i64::MAX
            } else {
                i64::MIN
            },
        }
    }

    fn mul(self, other: i64) -> i64 {
        match self.checked_mul(other) {
            Some(v) => v,
            None => {
                proof {
                    if (self > 0) == (other > 0) {
                        assert(self * other > i64::MAX) by (nonlinear_arith)
                            requires
                                self * other > i64::MAX || self * other < i64::MIN,
                                (self > 0) == (other > 0),
                        ;
                    } else {
                        assert(self * other < i64::MIN) by (nonlinear_arith)
                            requires
                                self * other > i64::MAX || self * other < i64::MIN,
                                (self > 0) != (other > 0),
                        ;
                    }
                }
                if (self > 0) == (other > 0) {
                    i64::MAX
                } else {
                    i64::MIN
                }
            },
        }
    }

    fn lt(self, other: i64) -> bool {
        self < other
    }

    proof fn law_sub_self(x: i64) {
    }

    proof fn law_mul_zero() {
    }

    proof fn law_add_zero() {
    }
}

} // verus!
