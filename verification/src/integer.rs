//! Integer coefficients: `i64` with arithmetic modulo 2^64.
//!
//! This arithmetic is exact up to the modulus, so what a polynomial over
//! `i64` computes can be said in closed form: each coefficient of a product
//! and each value is the wrapped result of the sum that defines it.

use vstd::prelude::*;
use vstd::arithmetic::div_mod::{lemma_add_mod_noop, lemma_mul_mod_noop_left};
use vstd::arithmetic::power::pow;
use crate::coefficient::Coefficient;
use crate::laws::product_with_zero;
use crate::model::{convolution, horner, normalized, product_term};
use crate::text::{push_signed_decimal, signed_decimal, Text};

verus! {

/// The number of values of an `i64`.
pub open spec fn modulus() -> int {
    0x1_0000_0000_0000_0000
}

/// The `i64` that is congruent to `n` modulo 2^64.
pub open spec fn wrapped(n: int) -> i64 {
    let remainder = n % modulus();
    if remainder > i64::MAX {
        (remainder - modulus()) as i64
    } else {
        remainder as i64
    }
}

/// Integers modulo 2^64, in two's complement: every operation wraps.
impl Coefficient for i64 {
    open spec fn zero_value() -> Self {
        0
    }

    open spec fn sum(self, rhs: Self) -> Self {
        wrapped(self + rhs)
    }

    open spec fn product(self, rhs: Self) -> Self {
        wrapped(self * rhs)
    }

    open spec fn negation(self) -> Self {
        wrapped(-self)
    }

    open spec fn of_int(i: i64) -> Self {
        i
    }

    open spec fn text(self) -> Text {
        signed_decimal(self as int)
    }

    open spec fn listed_text(self) -> Text {
        signed_decimal(self as int)
    }

    fn zero() -> (r: Self) {
        0
    }

    fn plus(self, rhs: Self) -> (r: Self) {
        self.wrapping_add(rhs)
    }

    fn times(self, rhs: Self) -> (r: Self) {
        self.wrapping_mul(rhs)
    }

    fn negated(self) -> (r: Self) {
        0i64.wrapping_sub(self)
    }

    fn from_int(i: i64) -> (r: Self) {
        i
    }

    fn to_text(&self) -> (r: String) {
        let mut text = String::new();
        push_signed_decimal(&mut text, *self);
        text
    }

    fn to_listed_text(&self) -> (r: String) {
        self.to_text()
    }

    proof fn equality_is_specified() {
    }

    proof fn zero_vanishes() {
    }

    proof fn sum_commutes(a: Self, b: Self) {
    }

    proof fn sum_with_zero(a: Self) {
    }

    proof fn of_int_vanishes(i: i64) {
    }
}

/// The sum of the products `a[i] * b[k - i]` over the `i < n` for which both
/// indices exist, as an integer.
pub open spec fn product_sum(a: Seq<i64>, b: Seq<i64>, k: int, n: int) -> int
    decreases n,
{
    if n <= 0 {
        0
    } else if 0 <= k - (n - 1) < b.len() {
        product_sum(a, b, k, n - 1) + a[n - 1] * b[k - (n - 1)]
    } else {
        product_sum(a, b, k, n - 1)
    }
}

/// The sum of `s[d] * x^d` over the degrees `d < n`, as an integer.
pub open spec fn power_sum(s: Seq<i64>, x: int, n: nat) -> int
    decreases n,
{
    if n == 0 {
        0
    } else {
        power_sum(s, x, (n - 1) as nat) + s[n - 1] * pow(x, (n - 1) as nat)
    }
}

/// Wrapping a sum after wrapping one of its operands is wrapping the sum.
proof fn wrapped_sum(m: int, c: int)
    ensures
        wrapped(wrapped(m) + c) == wrapped(m + c),
{
    lemma_add_mod_noop(wrapped(m) as int, c, modulus());
    lemma_add_mod_noop(m, c, modulus());
}

/// Wrapping a product after wrapping one of its factors is wrapping the
/// product.
proof fn wrapped_product(m: int, c: int)
    ensures
        wrapped(wrapped(m) * c) == wrapped(m * c),
{
    lemma_mul_mod_noop_left(wrapped(m) as int, c, modulus());
    lemma_mul_mod_noop_left(m, c, modulus());
}

/// Over `i64`, the partial term of a product is the wrapped partial sum.
proof fn product_term_is_exact(a: Seq<i64>, b: Seq<i64>, k: int, n: int)
    ensures
        product_term(a, b, k, n) == wrapped(product_sum(a, b, k, n)),
    decreases n,
{
    if n > 0 {
        product_term_is_exact(a, b, k, n - 1);
        if 0 <= k - (n - 1) < b.len() {
            let before = product_sum(a, b, k, n - 1);
            let last = a[n - 1] * b[k - (n - 1)];
            wrapped_sum(before, wrapped(last) as int);
            wrapped_sum(last, before);
        }
    }
}

/// Over `i64`, the coefficient of degree `k` of a product is the sum of all
/// `a[i] * b[j]` with `i + j == k`, wrapped.
pub proof fn integer_product_is_exact(a: Seq<i64>, b: Seq<i64>, k: int)
    requires
        0 <= k < convolution(a, b).len(),
    ensures
        convolution(a, b)[k] == wrapped(product_sum(a, b, k, a.len() as int)),
{
    product_term_is_exact(a, b, k, a.len() as int);
}

/// The sum of powers of a sequence, from the sum of powers of its tail.
proof fn power_sum_shift(s: Seq<i64>, x: int, n: nat)
    requires
        0 < n <= s.len(),
    ensures
        power_sum(s, x, n) == s[0] + x * power_sum(s.drop_first(), x, (n - 1) as nat),
    decreases n,
{
    reveal(pow);
    if n > 1 {
        power_sum_shift(s, x, (n - 1) as nat);
        let tail = s.drop_first();
        let rest = power_sum(tail, x, (n - 2) as nat);
        let top = pow(x, (n - 2) as nat);
        assert(x * (rest + s[n - 1] * top) == x * rest + s[n - 1] * (x * top))
            by (nonlinear_arith);
    } else {
        assert(power_sum(s, x, 0) == 0);
    }
}

/// Over `i64`, the value of a polynomial at `x` is the sum of all
/// `s[d] * x^d`, wrapped.
pub proof fn integer_value_is_exact(s: Seq<i64>, x: i64)
    ensures
        horner(s, x) == wrapped(power_sum(s, x as int, s.len())),
    decreases s.len(),
{
    if s.len() > 0 {
        let tail = s.drop_first();
        let rest = power_sum(tail, x as int, tail.len());
        integer_value_is_exact(tail, x);
        power_sum_shift(s, x as int, s.len());
        wrapped_product(rest, x as int);
        wrapped_sum(rest * x, s[0] as int);
    }
}

/// Over `i64`, the product of any polynomial and the zero polynomial is the
/// zero polynomial.
pub proof fn integer_product_with_zero(p: Seq<i64>)
    ensures
        normalized(convolution(p, seq![0i64])) == seq![0i64],
{
    product_with_zero(p);
}

} // verus!
