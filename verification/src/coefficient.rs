//! The arithmetic that a polynomial needs from its coefficients.

use vstd::prelude::*;
use vstd::std_specs::cmp::PartialEqSpec;
use crate::text::Text;

verus! {

/// A type whose values can serve as the coefficients of a polynomial.
///
/// Each executable operation is tied to a specification function of the same
/// meaning, so that whatever is proved of a polynomial is proved over the
/// coefficient type's own arithmetic. That arithmetic need not be exact: the
/// laws asked for below are the few that hold of rounded arithmetic as well.
/// Equality is the type's own `==`, which must be a fixed relation on values.
///
/// What is proved of polynomials holds for a coefficient type as far as its
/// implementation keeps these contracts. The implementation for `i64` is
/// proved to keep them.
pub trait Coefficient: Copy + PartialEq {
    /// The coefficient that stands for an absent term.
    spec fn zero_value() -> Self;

    /// The result of adding `rhs` to `self`.
    spec fn sum(self, rhs: Self) -> Self;

    /// The result of multiplying `self` by `rhs`.
    spec fn product(self, rhs: Self) -> Self;

    /// The additive inverse of `self`.
    spec fn negation(self) -> Self;

    /// The coefficient that stands for the integer `i`.
    spec fn of_int(i: i64) -> Self;

    /// How the coefficient is written in a rendered term.
    spec fn text(self) -> Text;

    /// How the coefficient is written in a diagnostic list of coefficients.
    /// This may differ from `text`: a list shows a value as it is held, a
    /// term as it is read, so that a double 1 is listed as `1.0` and
    /// rendered as `1`.
    spec fn listed_text(self) -> Text;

    fn zero() -> (r: Self)
        ensures
            r == Self::zero_value(),
    ;

    fn plus(self, rhs: Self) -> (r: Self)
        ensures
            r == self.sum(rhs),
    ;

    fn times(self, rhs: Self) -> (r: Self)
        ensures
            r == self.product(rhs),
    ;

    fn negated(self) -> (r: Self)
        ensures
            r == self.negation(),
    ;

    fn from_int(i: i64) -> (r: Self)
        ensures
            r == Self::of_int(i),
    ;

    fn to_text(&self) -> (r: String)
        ensures
            r@ == self.text(),
    ;

    fn to_listed_text(&self) -> (r: String)
        ensures
            r@ == self.listed_text(),
    ;

    /// `==` on the type computes `eq_spec`.
    proof fn equality_is_specified()
        ensures
            Self::obeys_eq_spec(),
    ;

    /// The zero coefficient compares equal to itself.
    proof fn zero_vanishes()
        ensures
            Self::zero_value().eq_spec(&Self::zero_value()),
    ;

    /// Addition does not depend on the order of its operands.
    proof fn sum_commutes(a: Self, b: Self)
        ensures
            a.sum(b) == b.sum(a),
    ;

    /// Adding a coefficient to zero gives a zero exactly when the coefficient
    /// is one.
    proof fn sum_with_zero(a: Self)
        ensures
            Self::zero_value().sum(a).eq_spec(&Self::zero_value()) == a.eq_spec(
                &Self::zero_value(),
            ),
    ;

    /// Only the integer zero converts to a zero coefficient.
    proof fn of_int_vanishes(i: i64)
        ensures
            Self::of_int(i).eq_spec(&Self::zero_value()) <==> i == 0,
    ;
}

/// Whether `c` counts as zero: whether it compares equal to the zero
/// coefficient of its type.
pub open spec fn vanishes<T: Coefficient>(c: T) -> bool {
    c.eq_spec(&T::zero_value())
}

} // verus!
