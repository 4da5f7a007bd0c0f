//! What holds of the operations on polynomials whatever their operands,
//! stated over the model and proved from the laws of the coefficient type.

use vstd::prelude::*;
use crate::coefficient::{vanishes, Coefficient};
use crate::model::{
    coefficient_at, converted, convolution, degree_of, is_normal, lemma_product_term_unreached,
    lemma_stripped, normalized, padded_sum, product_term,
};

verus! {

/// A sequence is canonical exactly if normalizing it changes nothing.
pub proof fn normal_is_fixed<T: Coefficient>(s: Seq<T>)
    ensures
        is_normal(s) <==> normalized(s) == s,
{
    T::zero_vanishes();
    lemma_stripped(s, T::zero_value());
}

/// Normalizing is idempotent: building a polynomial from the coefficients of
/// a polynomial built from `xs` gives the coefficients that `xs` gave.
pub proof fn normalization_is_idempotent<T: Coefficient>(xs: Seq<T>)
    ensures
        normalized(normalized(xs)) == normalized(xs),
{
    lemma_stripped(xs, T::zero_value());
    normal_is_fixed(normalized(xs));
}

/// Building a polynomial from integers is building it from the converted
/// integers: it makes no difference whether the zeros at the end are dropped
/// before or after the conversion.
pub proof fn conversion_keeps_normalization<T: Coefficient>(ints: Seq<i64>)
    ensures
        converted::<T>(ints) == normalized(Seq::new(ints.len(), |i: int| T::of_int(ints[i]))),
    decreases ints.len(),
{
    let all = Seq::new(ints.len(), |i: int| T::of_int(ints[i]));
    if ints.len() > 0 {
        T::of_int_vanishes(ints.last());
        if ints.last() == 0 {
            conversion_keeps_normalization::<T>(ints.drop_last());
            assert(all.drop_last() =~= Seq::new(
                ints.drop_last().len(),
                |i: int| T::of_int(ints.drop_last()[i]),
            ));
        }
    }
}

/// Addition is commutative: `a + b` and `b + a` have the same coefficients.
pub proof fn addition_commutes<T: Coefficient>(a: Seq<T>, b: Seq<T>)
    ensures
        normalized(padded_sum(a, b)) == normalized(padded_sum(b, a)),
{
    assert forall|i: int| 0 <= i < padded_sum(a, b).len() implies padded_sum(a, b)[i]
        == padded_sum(b, a)[i] by {
        T::sum_commutes(coefficient_at(a, i), coefficient_at(b, i));
    }
    assert(padded_sum(a, b) =~= padded_sum(b, a));
}

/// A sequence of zeros normalizes to the zero polynomial.
pub proof fn zeros_normalize_to_zero<T: Coefficient>(s: Seq<T>)
    requires
        forall|i: int| 0 <= i < s.len() ==> vanishes(#[trigger] s[i]),
    ensures
        normalized(s) == seq![T::zero_value()],
{
    lemma_stripped(s, T::zero_value());
}

/// The product of any polynomial `p` and the zero polynomial is the zero
/// polynomial, provided that each coefficient of `p` times zero is zero.
pub proof fn product_with_zero<T: Coefficient>(p: Seq<T>)
    requires
        forall|i: int| 0 <= i < p.len() ==> vanishes(#[trigger] p[i].product(T::zero_value())),
    ensures
        normalized(convolution(p, seq![T::zero_value()])) == seq![T::zero_value()],
{
    let zero = seq![T::zero_value()];
    let c = convolution(p, zero);
    assert forall|k: int| 0 <= k < c.len() implies vanishes(#[trigger] c[k]) by {
        single_column_term(p, T::zero_value(), k, p.len() as int);
        T::sum_with_zero(p[k].product(T::zero_value()));
    }
    zeros_normalize_to_zero(c);
}

/// The product of the zero polynomial and any polynomial `p` is the zero
/// polynomial, provided that zero times each coefficient of `p` is zero.
pub proof fn zero_product<T: Coefficient>(p: Seq<T>)
    requires
        forall|i: int| 0 <= i < p.len() ==> vanishes(#[trigger] T::zero_value().product(p[i])),
    ensures
        normalized(convolution(seq![T::zero_value()], p)) == seq![T::zero_value()],
{
    let zero = seq![T::zero_value()];
    let c = convolution(zero, p);
    assert forall|k: int| 0 <= k < c.len() implies vanishes(#[trigger] c[k]) by {
        reveal_with_fuel(product_term, 2);
        T::sum_with_zero(T::zero_value().product(p[k]));
    }
    zeros_normalize_to_zero(c);
}

/// Against a polynomial of the single coefficient `c`, the term of degree
/// `k` holds the one product `a[k] * c`, once row `k` has been added.
proof fn single_column_term<T: Coefficient>(a: Seq<T>, c: T, k: int, n: int)
    requires
        0 <= k,
    ensures
        product_term(a, seq![c], k, n) == (if k < n {
            T::zero_value().sum(a[k].product(c))
        } else {
            T::zero_value()
        }),
    decreases n,
{
    if n > 0 {
        single_column_term(a, c, k, n - 1);
    }
}

/// Multiplication adds degrees: if neither `a` nor `b` is the zero
/// polynomial, and the product of their leading coefficients is not zero,
/// the degree of `a * b` is the sum of the degrees of `a` and `b`.
pub proof fn product_degree<T: Coefficient>(a: Seq<T>, b: Seq<T>)
    requires
        is_normal(a),
        is_normal(b),
        a != seq![T::zero_value()],
        b != seq![T::zero_value()],
        !vanishes(a.last().product(b.last())),
    ensures
        degree_of(normalized(convolution(a, b))) == degree_of(a) + degree_of(b),
{
    T::zero_vanishes();
    let c = convolution(a, b);
    let top = a.len() + b.len() - 2;
    assert(c.last() == T::zero_value().sum(a.last().product(b.last()))) by {
        lemma_product_term_unreached(a, b, top, a.len() - 1);
    }
    T::sum_with_zero(a.last().product(b.last()));
    lemma_stripped(c, T::zero_value());
}

/// The degree of a sum is at most the greater of the degrees of its
/// operands, and equal to it unless the leading coefficients cancel.
pub proof fn sum_degree<T: Coefficient>(a: Seq<T>, b: Seq<T>)
    requires
        is_normal(a),
        is_normal(b),
    ensures
        degree_of(normalized(padded_sum(a, b))) <= vstd::math::max(degree_of(a), degree_of(b)),
        !vanishes(padded_sum(a, b).last()) ==> degree_of(normalized(padded_sum(a, b)))
            == vstd::math::max(degree_of(a), degree_of(b)),
        a.len() != b.len() ==> !vanishes(padded_sum(a, b).last()),
{
    T::zero_vanishes();
    let s = padded_sum(a, b);
    lemma_stripped(s, T::zero_value());
    if a.len() > b.len() {
        T::sum_commutes(a.last(), T::zero_value());
        T::sum_with_zero(a.last());
    } else if b.len() > a.len() {
        T::sum_with_zero(b.last());
    } else if a.len() == 1 && vanishes(a[0]) && vanishes(b[0]) {
        T::sum_with_zero(T::zero_value());
    }
}

} // verus!
