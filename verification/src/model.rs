//! The mathematical model of a polynomial: its coefficients as a sequence,
//! lowest degree first, and what each operation makes of such sequences.

use vstd::prelude::*;
use vstd::std_specs::cmp::PartialEqSpec;
use crate::coefficient::{vanishes, Coefficient};
use crate::text::{decimal, Text};

verus! {

/// `s` without the elements at its end that compare equal to `object`.
pub open spec fn stripped<T: PartialEq>(s: Seq<T>, object: T) -> Seq<T>
    decreases s.len(),
{
    if s.len() > 0 && s.last().eq_spec(&object) {
        stripped(s.drop_last(), object)
    } else {
        s
    }
}

/// What stripping keeps is a prefix of `s` that does not end in `object`, and
/// everything that it drops equals `object`.
pub proof fn lemma_stripped<T: PartialEq>(s: Seq<T>, object: T)
    ensures
        stripped(s, object).len() <= s.len(),
        stripped(s, object) == s.take(stripped(s, object).len() as int),
        stripped(s, object).len() > 0 ==> !stripped(s, object).last().eq_spec(&object),
        forall|i: int| stripped(s, object).len() <= i < s.len() ==> s[i].eq_spec(&object),
    decreases s.len(),
{
    if s.len() > 0 && s.last().eq_spec(&object) {
        lemma_stripped(s.drop_last(), object);
        let kept = stripped(s.drop_last(), object);
        assert forall|i: int| kept.len() <= i < s.len() implies s[i].eq_spec(&object) by {
            if i < s.len() - 1 {
                assert(s.drop_last()[i] == s[i]);
            }
        }
    }
}

/// The canonical coefficients of the polynomial that `s` describes: `s`
/// without its trailing zeros, or the single zero coefficient if nothing else
/// is left.
pub open spec fn normalized<T: Coefficient>(s: Seq<T>) -> Seq<T> {
    let kept = stripped(s, T::zero_value());
    if kept.len() == 0 {
        seq![T::zero_value()]
    } else {
        kept
    }
}

/// Whether `s` is canonical: the single zero coefficient, or a sequence whose
/// last element is not zero.
pub open spec fn is_normal<T: Coefficient>(s: Seq<T>) -> bool {
    s == seq![T::zero_value()] || (s.len() > 0 && !vanishes(s.last()))
}

/// Normalizing gives canonical coefficients.
pub proof fn lemma_normalized_is_normal<T: Coefficient>(s: Seq<T>)
    ensures
        is_normal(normalized(s)),
{
    lemma_stripped(s, T::zero_value());
}

/// What `from_ints` makes of a sequence of integers: trailing integer zeros
/// go first, then each integer that is left is converted.
pub open spec fn converted<T: Coefficient>(ints: Seq<i64>) -> Seq<T> {
    let kept = stripped(ints, 0i64);
    if kept.len() == 0 {
        seq![T::zero_value()]
    } else {
        Seq::new(kept.len(), |i: int| T::of_int(kept[i]))
    }
}

/// Converting integers gives canonical coefficients.
pub proof fn lemma_converted_is_normal<T: Coefficient>(ints: Seq<i64>)
    ensures
        is_normal(converted::<T>(ints)),
{
    lemma_stripped(ints, 0i64);
    let kept = stripped(ints, 0i64);
    if kept.len() > 0 {
        T::of_int_vanishes(kept.last());
    }
}

/// The coefficient of degree `i`; zero beyond the end of the sequence.
pub open spec fn coefficient_at<T: Coefficient>(s: Seq<T>, i: int) -> T {
    if 0 <= i < s.len() {
        s[i]
    } else {
        T::zero_value()
    }
}

/// The coefficient-wise sum of `a` and `b`, the shorter of the two continued
/// with zeros to the length of the longer.
pub open spec fn padded_sum<T: Coefficient>(a: Seq<T>, b: Seq<T>) -> Seq<T> {
    Seq::new(
        if a.len() >= b.len() {
            a.len()
        } else {
            b.len()
        },
        |i: int| coefficient_at(a, i).sum(coefficient_at(b, i)),
    )
}

/// Every coefficient of `s` replaced by its additive inverse.
pub open spec fn negated<T: Coefficient>(s: Seq<T>) -> Seq<T> {
    Seq::new(s.len(), |i: int| s[i].negation())
}

/// The sum of the products `a[i] * b[k - i]` over the `i < n` for which both
/// indices exist, accumulated from zero in rising order of `i`.
pub open spec fn product_term<T: Coefficient>(a: Seq<T>, b: Seq<T>, k: int, n: int) -> T
    decreases n,
{
    if n <= 0 {
        T::zero_value()
    } else {
        let before = product_term(a, b, k, n - 1);
        if 0 <= k - (n - 1) < b.len() {
            before.sum(a[n - 1].product(b[k - (n - 1)]))
        } else {
            before
        }
    }
}

/// Where no `i < n` has a partner `k - i` within `b`, nothing has been added
/// to the term yet.
pub proof fn lemma_product_term_unreached<T: Coefficient>(a: Seq<T>, b: Seq<T>, k: int, n: int)
    requires
        n <= 0 || k - (n - 1) >= b.len(),
    ensures
        product_term(a, b, k, n) == T::zero_value(),
    decreases n,
{
    if n > 0 {
        lemma_product_term_unreached(a, b, k, n - 1);
    }
}

/// The convolution of `a` and `b`: the coefficient of degree `k` is the sum
/// of all `a[i] * b[j]` with `i + j == k`.
pub open spec fn convolution<T: Coefficient>(a: Seq<T>, b: Seq<T>) -> Seq<T> {
    if a.len() == 0 || b.len() == 0 {
        Seq::empty()
    } else {
        Seq::new((a.len() + b.len() - 1) as nat, |k: int| product_term(a, b, k, a.len() as int))
    }
}

/// The value of the polynomial with coefficients `s` at `x`, by Horner's
/// rule: `s[0] + x * (s[1] + x * (s[2] + ...))`.
pub open spec fn horner<T: Coefficient>(s: Seq<T>, x: T) -> T
    decreases s.len(),
{
    if s.len() == 0 {
        T::zero_value()
    } else {
        horner(s.drop_first(), x).product(x).sum(s[0])
    }
}

/// The degree of the polynomial with coefficients `s`: one less than their
/// number, and -1 for the zero polynomial.
pub open spec fn degree_of<T: Coefficient>(s: Seq<T>) -> int {
    if s.len() == 1 && vanishes(s[0]) {
        -1
    } else {
        s.len() - 1
    }
}

/// The term of degree `d` with coefficient `c`: the coefficient alone at
/// degree 0, followed by the indeterminate from degree 1 on, and by `^` and
/// the degree from degree 2 on.
pub open spec fn term<T: Coefficient>(c: T, indeterminate: char, d: nat) -> Text {
    if d == 0 {
        c.text()
    } else if d == 1 {
        c.text().push(indeterminate)
    } else {
        c.text().push(indeterminate).push('^') + decimal(d)
    }
}

/// The terms of the degrees below `n`, joined by `" + "`. The term of degree
/// 0 is always there; a later term is left out if its coefficient is zero.
pub open spec fn terms<T: Coefficient>(s: Seq<T>, indeterminate: char, n: nat) -> Text
    decreases n,
{
    if n == 0 {
        Seq::empty()
    } else if n == 1 {
        term(s[0], indeterminate, 0)
    } else {
        let before = terms(s, indeterminate, (n - 1) as nat);
        if vanishes(s[n - 1]) {
            before
        } else {
            before + " + "@ + term(s[n - 1], indeterminate, (n - 1) as nat)
        }
    }
}

/// The polynomial written out: `f(x) = ` and its terms, for the indeterminate
/// `x`.
pub open spec fn rendered<T: Coefficient>(s: Seq<T>, indeterminate: char) -> Text {
    "f("@.push(indeterminate) + ") = "@ + terms(s, indeterminate, s.len())
}

/// The first `n` coefficients as a list shows them, separated by `", "`.
pub open spec fn listed<T: Coefficient>(s: Seq<T>, n: nat) -> Text
    decreases n,
{
    if n == 0 {
        Seq::empty()
    } else if n == 1 {
        s[0].listed_text()
    } else {
        listed(s, (n - 1) as nat) + ", "@ + s[n - 1].listed_text()
    }
}

/// The diagnostic view of a polynomial: the list of its coefficients as they
/// are held, its indeterminate, and the polynomial written out.
pub open spec fn diagnostic_text<T: Coefficient>(s: Seq<T>, indeterminate: char) -> Text {
    "Polynomial { coefficients: ["@ + listed(s, s.len()) + "], indeterminate: '"@.push(
        indeterminate,
    ) + "', as_string: "@ + rendered(s, indeterminate) + " }"@
}

} // verus!
