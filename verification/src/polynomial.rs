//! The polynomial type and its operations.

use vstd::prelude::*;
use vstd::std_specs::cmp::PartialEqSpec;
use vstd::std_specs::ops::{AddSpecImpl, SubSpecImpl};
use crate::coefficient::Coefficient;
use crate::model::{
    converted, convolution, degree_of, diagnostic_text, horner, is_normal,
    lemma_converted_is_normal, lemma_normalized_is_normal, lemma_product_term_unreached, listed,
    negated, normalized, padded_sum, product_term, rendered, stripped, terms,
};
use crate::text::push_decimal;

verus! {

/// The indeterminate of every polynomial that arithmetic produces, whatever
/// the indeterminates of the operands.
pub const DEFAULT_INDETERMINATE: char = 'x';

/// Removes from the end of `list` every element that equals `object`, up to
/// the last element that does not.
pub fn strip_from_end<T: PartialEq>(list: Vec<T>, object: T) -> (stripped_list: Vec<T>)
    ensures
        stripped_list@.len() <= list@.len(),
        stripped_list@ == list@.take(stripped_list@.len() as int),
        T::obeys_eq_spec() ==> stripped_list@ == stripped(list@, object),
{
    let mut kept = list;
    while kept.len() > 0 && kept[kept.len() - 1] == object
        invariant
            kept@.len() <= list@.len(),
            kept@ == list@.take(kept@.len() as int),
            T::obeys_eq_spec() ==> stripped(kept@, object) == stripped(list@, object),
        decreases kept.len(),
    {
        kept.pop();
    }
    kept
}

/// A polynomial in one indeterminate.
///
/// Every polynomial that this module builds is well formed: its coefficients
/// do not end in a zero, and the zero polynomial holds the single zero
/// coefficient. No operation changes its operands.
pub struct Polynomial<T> {
    /// The coefficients; `coefficients[i]` belongs to the term of degree `i`.
    pub coefficients: Vec<T>,
    /// The character that the polynomial is written in, as the `x` of
    /// `f(x) = 1 + 2x`. It plays no part in arithmetic.
    pub indeterminate: char,
}

/// `a + b`: the coefficients of the same degree are added, the shorter
/// operand continued with zeros, and the sums normalized.
impl<T: Coefficient> core::ops::Add for Polynomial<T> {
    type Output = Polynomial<T>;

    fn add(self, other: Polynomial<T>) -> (total: Polynomial<T>)
        ensures
            total.coefficients@ == normalized(padded_sum(self.coefficients@, other.coefficients@)),
            total.indeterminate == DEFAULT_INDETERMINATE,
            total.well_formed(),
    {
        let length = if self.coefficients.len() >= other.coefficients.len() {
            self.coefficients.len()
        } else {
            other.coefficients.len()
        };
        let mut new_coefficients: Vec<T> = Vec::new();
        let mut i: usize = 0;
        while i < length
            invariant
                i <= length,
                length == padded_sum(self.coefficients@, other.coefficients@).len(),
                new_coefficients@ == padded_sum(self.coefficients@, other.coefficients@).take(
                    i as int,
                ),
            decreases length - i,
        {
            let a = if i < self.coefficients.len() {
                self.coefficients[i]
            } else {
                T::zero()
            };
            let b = if i < other.coefficients.len() {
                other.coefficients[i]
            } else {
                T::zero()
            };
            new_coefficients.push(a.plus(b));
            i += 1;
        }
        assert(new_coefficients@ =~= padded_sum(self.coefficients@, other.coefficients@));
        Polynomial::new(new_coefficients, DEFAULT_INDETERMINATE)
    }
}

/// The contract of `+` is stated on `add` itself.
impl<T: Coefficient> AddSpecImpl for Polynomial<T> {
    open spec fn obeys_add_spec() -> bool {
        false
    }

    open spec fn add_req(self, other: Polynomial<T>) -> bool {
        true
    }

    open spec fn add_spec(self, other: Polynomial<T>) -> Polynomial<T> {
        self
    }
}

/// `a - b`: `b` is negated coefficient by coefficient and normalized, and
/// the result is added to `a`.
impl<T: Coefficient> core::ops::Sub for Polynomial<T> {
    type Output = Polynomial<T>;

    fn sub(self, other: Polynomial<T>) -> (difference: Polynomial<T>)
        ensures
            difference.coefficients@ == normalized(
                padded_sum(self.coefficients@, normalized(negated(other.coefficients@))),
            ),
            difference.indeterminate == DEFAULT_INDETERMINATE,
            difference.well_formed(),
    {
        let mut negative_coefficients: Vec<T> = Vec::new();
        let mut i: usize = 0;
        while i < other.coefficients.len()
            invariant
                i <= other.coefficients@.len(),
                negative_coefficients@ == negated(other.coefficients@).take(i as int),
            decreases other.coefficients@.len() - i,
        {
            negative_coefficients.push(other.coefficients[i].negated());
            i += 1;
        }
        assert(negative_coefficients@ =~= negated(other.coefficients@));
        let negative = Polynomial::new(negative_coefficients, DEFAULT_INDETERMINATE);
        self + negative
    }
}

/// The contract of `-` is stated on `sub` itself.
impl<T: Coefficient> SubSpecImpl for Polynomial<T> {
    open spec fn obeys_sub_spec() -> bool {
        false
    }

    open spec fn sub_req(self, other: Polynomial<T>) -> bool {
        true
    }

    open spec fn sub_spec(self, other: Polynomial<T>) -> Polynomial<T> {
        self
    }
}

impl<T: Coefficient> Polynomial<T> {
    /// Whether the coefficients are canonical: no zero at the end, and the
    /// zero polynomial held as its single zero coefficient.
    pub open spec fn well_formed(&self) -> bool {
        is_normal(self.coefficients@)
    }

    /// The polynomial with the given coefficients, lowest degree first.
    /// Zeros at the end of `coefficients` are dropped; if nothing is left, the
    /// result is the zero polynomial.
    pub fn new(coefficients: Vec<T>, indeterminate: char) -> (polynomial: Polynomial<T>)
        ensures
            polynomial.coefficients@ == normalized(coefficients@),
            polynomial.indeterminate == indeterminate,
            polynomial.well_formed(),
    {
        proof {
            T::equality_is_specified();
            lemma_normalized_is_normal(coefficients@);
        }
        let stripped_coefficients = strip_from_end(coefficients, T::zero());
        if stripped_coefficients.len() == 0 {
            let zero_only = vec![T::zero()];
            assert(zero_only@ =~= seq![T::zero_value()]);
            return Polynomial { coefficients: zero_only, indeterminate };
        }
        Polynomial { coefficients: stripped_coefficients, indeterminate }
    }

    /// The polynomial with the given integer coefficients, lowest degree
    /// first. Zeros at the end of `coefficients` are dropped before the
    /// integers are converted; if nothing is left, the result is the zero
    /// polynomial.
    pub fn from_ints(coefficients: Vec<i64>, indeterminate: char) -> (polynomial: Polynomial<T>)
        ensures
            polynomial.coefficients@ == converted::<T>(coefficients@),
            polynomial.indeterminate == indeterminate,
            polynomial.well_formed(),
    {
        proof {
            lemma_converted_is_normal::<T>(coefficients@);
        }
        let stripped_coefficients = strip_from_end(coefficients, 0i64);
        if stripped_coefficients.len() == 0 {
            let zero_only = vec![T::zero()];
            assert(zero_only@ =~= seq![T::zero_value()]);
            return Polynomial { coefficients: zero_only, indeterminate };
        }
        let mut new_coefficients: Vec<T> = Vec::new();
        let mut i: usize = 0;
        while i < stripped_coefficients.len()
            invariant
                i <= stripped_coefficients@.len(),
                stripped_coefficients@ == stripped(coefficients@, 0i64),
                stripped_coefficients@.len() > 0,
                new_coefficients@ == converted::<T>(coefficients@).take(i as int),
            decreases stripped_coefficients@.len() - i,
        {
            new_coefficients.push(T::from_int(stripped_coefficients[i]));
            i += 1;
        }
        Polynomial { coefficients: new_coefficients, indeterminate }
    }

    /// The same polynomial, written in another indeterminate.
    pub fn with_indeterminate(self, indeterminate: char) -> (polynomial: Polynomial<T>)
        ensures
            polynomial.coefficients@ == self.coefficients@,
            polynomial.indeterminate == indeterminate,
            polynomial.well_formed() == self.well_formed(),
    {
        Polynomial { coefficients: self.coefficients, indeterminate }
    }

    /// The sum of `self` and `other`; the same as `self + other`.
    pub fn add(self, other: Polynomial<T>) -> (total: Polynomial<T>)
        ensures
            total.coefficients@ == normalized(padded_sum(self.coefficients@, other.coefficients@)),
            total.indeterminate == DEFAULT_INDETERMINATE,
            total.well_formed(),
    {
        self + other
    }

    /// The difference of `self` and `other`; the same as `self - other`.
    pub fn sub(self, other: Polynomial<T>) -> (difference: Polynomial<T>)
        ensures
            difference.coefficients@ == normalized(
                padded_sum(self.coefficients@, normalized(negated(other.coefficients@))),
            ),
            difference.indeterminate == DEFAULT_INDETERMINATE,
            difference.well_formed(),
    {
        self - other
    }

    /// The product of `self` and `other`: the convolution of their
    /// coefficients, normalized.
    pub fn multiply(&self, other: Polynomial<T>) -> (product: Polynomial<T>)
        ensures
            product.coefficients@ == normalized(
                convolution(self.coefficients@, other.coefficients@),
            ),
            product.indeterminate == DEFAULT_INDETERMINATE,
            product.well_formed(),
    {
        let ghost a = self.coefficients@;
        let ghost b = other.coefficients@;
        let rows = self.coefficients.len();
        let columns = other.coefficients.len();
        let mut new_coefficients: Vec<T> = Vec::new();
        let mut i: usize = 0;
        while i < rows
            invariant
                i <= rows,
                rows == a.len(),
                columns == b.len(),
                a == self.coefficients@,
                b == other.coefficients@,
                new_coefficients@.len() == (if i == 0 || columns == 0 {
                    0
                } else {
                    i + columns - 1
                }),
                forall|k: int|
                    0 <= k < new_coefficients@.len() ==> new_coefficients@[k] == product_term(
                        a,
                        b,
                        k,
                        i as int,
                    ),
            decreases rows - i,
        {
            let mut j: usize = 0;
            while j < columns
                invariant
                    i < rows,
                    j <= columns,
                    rows == a.len(),
                    columns == b.len(),
                    a == self.coefficients@,
                    b == other.coefficients@,
                    new_coefficients@.len() == (if columns == 0 {
                        0
                    } else if i == 0 || j == columns {
                        i + j
                    } else {
                        i + columns - 1
                    }),
                    forall|k: int|
                        0 <= k < new_coefficients@.len() ==> new_coefficients@[k] == product_term(
                            a,
                            b,
                            k,
                            if i <= k < i + j {
                                i + 1
                            } else {
                                i as int
                            },
                        ),
                decreases columns - j,
            {
                // The product belongs to the term of degree `i + j`. In the
                // first row every product opens a new term; in a later row
                // only the last one does.
                let term = self.coefficients[i].times(other.coefficients[j]);
                let filled = new_coefficients.len();
                if i + j < filled {
                    let sum = new_coefficients[i + j].plus(term);
                    new_coefficients.set(i + j, sum);
                } else {
                    proof {
                        lemma_product_term_unreached(a, b, i + j, i as int);
                    }
                    new_coefficients.push(T::zero().plus(term));
                }
                j += 1;
            }
            i += 1;
        }
        assert(new_coefficients@ =~= convolution(a, b));
        Polynomial::new(new_coefficients, DEFAULT_INDETERMINATE)
    }

    /// The value of the polynomial at `determinate`, computed by Horner's
    /// rule from the highest coefficient down.
    pub fn evaluate_at(&self, determinate: T) -> (value: T)
        ensures
            value == horner(self.coefficients@, determinate),
    {
        let mut value = T::zero();
        let mut remaining: usize = self.coefficients.len();
        while remaining > 0
            invariant
                remaining <= self.coefficients@.len(),
                value == horner(
                    self.coefficients@.subrange(
                        remaining as int,
                        self.coefficients@.len() as int,
                    ),
                    determinate,
                ),
            decreases remaining,
        {
            remaining -= 1;
            proof {
                let suffix = self.coefficients@.subrange(
                    remaining as int,
                    self.coefficients@.len() as int,
                );
                assert(suffix.drop_first() == self.coefficients@.subrange(
                    remaining + 1,
                    self.coefficients@.len() as int,
                ));
            }
            value = value.times(determinate).plus(self.coefficients[remaining]);
        }
        assert(self.coefficients@.subrange(0, self.coefficients@.len() as int)
            == self.coefficients@);
        value
    }

    /// The degree of the polynomial: the index of its last coefficient, and
    /// -1 for the zero polynomial.
    pub fn degree(&self) -> (degree: isize)
        requires
            self.coefficients@.len() - 1 <= isize::MAX,
        ensures
            degree == degree_of(self.coefficients@),
    {
        proof {
            T::equality_is_specified();
        }
        let length = self.coefficients.len();
        if length == 0 || (length == 1 && self.coefficients[0] == T::zero()) {
            return -1;
        }
        (length - 1) as isize
    }

    /// The polynomial written out, as in `f(x) = 1 + 2x + 3x^3`.
    /// The term of degree 0 is always written; a term of a higher degree is
    /// left out if its coefficient is zero.
    pub fn as_string(&self) -> (text: String)
        ensures
            text@ == rendered(self.coefficients@, self.indeterminate),
    {
        proof {
            T::equality_is_specified();
        }
        let mut joined = String::new();
        let mut degree: usize = 0;
        while degree < self.coefficients.len()
            invariant
                degree <= self.coefficients@.len(),
                T::obeys_eq_spec(),
                joined@ == terms(self.coefficients@, self.indeterminate, degree as nat),
            decreases self.coefficients@.len() - degree,
        {
            let coefficient = self.coefficients[degree];
            if degree == 0 {
                joined.append(coefficient.to_text().as_str());
            } else if coefficient != T::zero() {
                joined.append(" + ");
                joined.append(coefficient.to_text().as_str());
                joined.push(self.indeterminate);
                if degree >= 2 {
                    joined.push('^');
                    push_decimal(&mut joined, degree as u64);
                }
            }
            degree += 1;
        }
        let mut text = String::from_str("f(");
        text.push(self.indeterminate);
        text.append(") = ");
        text.append(joined.as_str());
        text
    }

    /// A diagnostic view of the polynomial: the coefficients as they are
    /// held, the indeterminate, and the polynomial written out. Over `i64`
    /// it reads
    /// `Polynomial { coefficients: [1, 2], indeterminate: 'x', as_string: f(x) = 1 + 2x }`;
    /// a coefficient type may list its values otherwise than it renders them.
    pub fn diagnostic(&self) -> (text: String)
        ensures
            text@ == diagnostic_text(self.coefficients@, self.indeterminate),
    {
        let mut list = String::new();
        let mut i: usize = 0;
        while i < self.coefficients.len()
            invariant
                i <= self.coefficients@.len(),
                list@ == listed(self.coefficients@, i as nat),
            decreases self.coefficients@.len() - i,
        {
            if i > 0 {
                list.append(", ");
            }
            list.append(self.coefficients[i].to_listed_text().as_str());
            i += 1;
        }
        let mut text = String::from_str("Polynomial { coefficients: [");
        text.append(list.as_str());
        text.append("], indeterminate: '");
        text.push(self.indeterminate);
        text.append("', as_string: ");
        text.append(self.as_string().as_str());
        text.append(" }");
        text
    }
}

} // verus!
