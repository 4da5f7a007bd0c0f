use polynom::coefficient::Coefficient;
use polynom::polynomial::strip_from_end;
use polynom::polynomial::Polynomial;
use polynom::polynomial::DEFAULT_INDETERMINATE;

fn integers(values: Vec<i64>) -> Polynomial<i64> {
    Polynomial::new(values, 'x')
}

#[test]
fn test_strip_from_end_without_a_match_at_the_end() {
    assert_eq!(strip_from_end(vec![0, 0, 1], 0), vec![0, 0, 1]);
}

#[test]
fn test_strip_from_end_of_nothing_but_matches() {
    assert_eq!(strip_from_end(vec![7, 7, 7], 7), Vec::<i32>::new());
}

#[test]
fn test_strip_from_end_of_an_empty_list() {
    assert_eq!(strip_from_end(Vec::<i32>::new(), 0), Vec::<i32>::new());
}

#[test]
fn test_strip_from_end_of_strings() {
    assert_eq!(
        strip_from_end(vec!["a", "", "b", "", ""], ""),
        vec!["a", "", "b"]
    );
}

#[test]
fn test_integer_zero() {
    assert_eq!(<i64 as Coefficient>::zero(), 0);
    assert_eq!(<i64 as Coefficient>::from_int(-12), -12);
}

#[test]
fn test_integer_plus_wraps() {
    assert_eq!(2i64.plus(3), 5);
    assert_eq!(i64::MAX.plus(1), i64::MIN);
    assert_eq!(i64::MIN.plus(-1), i64::MAX);
}

#[test]
fn test_integer_times_wraps() {
    assert_eq!((-4i64).times(6), -24);
    assert_eq!((1i64 << 32).times(1i64 << 32), 0);
    assert_eq!(i64::MAX.times(2), -2);
}

#[test]
fn test_integer_negated_wraps() {
    assert_eq!(5i64.negated(), -5);
    assert_eq!(0i64.negated(), 0);
    assert_eq!(i64::MIN.negated(), i64::MIN);
}

#[test]
fn test_integer_listed_text() {
    assert_eq!(0i64.to_listed_text(), "0");
    assert_eq!((-45i64).to_listed_text(), "-45");
    assert_eq!(i64::MIN.to_listed_text(), "-9223372036854775808");
}

#[test]
fn test_integer_text() {
    assert_eq!(0i64.to_text(), "0");
    assert_eq!(907i64.to_text(), "907");
    assert_eq!((-45i64).to_text(), "-45");
    assert_eq!(i64::MAX.to_text(), "9223372036854775807");
    assert_eq!(i64::MIN.to_text(), "-9223372036854775808");
}

#[test]
fn test_integer_polynomial_is_normalized() {
    assert_eq!(integers(vec![1, 2, 0, 3, 0, 0]).coefficients, vec![1, 2, 0, 3]);
    assert_eq!(integers(vec![0]).coefficients, vec![0]);
    assert_eq!(integers(vec![]).coefficients, vec![0]);
}

#[test]
fn test_integer_polynomial_from_ints() {
    let polynomial: Polynomial<i64> = Polynomial::from_ints(vec![4, 0, -1, 0], 'z');
    assert_eq!(polynomial.coefficients, vec![4, 0, -1]);
    assert_eq!(polynomial.indeterminate, 'z');
}

#[test]
fn test_integer_polynomial_degree() {
    assert_eq!(integers(vec![1, 2, 0, 3]).degree(), 3);
    assert_eq!(integers(vec![0]).degree(), -1);
    assert_eq!(integers(vec![5]).degree(), 0);
}

#[test]
fn test_integer_polynomial_sum() {
    let sum = integers(vec![1, 2, 0, 3]).add(integers(vec![1, 2, 0, 3, 4]));
    assert_eq!(sum.coefficients, vec![2, 4, 0, 6, 4]);
    assert_eq!(sum.indeterminate, DEFAULT_INDETERMINATE);

    let sum = integers(vec![1, 2, 0, 3]) + integers(vec![-1, -2, 0, -3]);
    assert_eq!(sum.coefficients, vec![0]);
}

#[test]
fn test_integer_polynomial_difference() {
    let difference = integers(vec![1, 2, 3]).sub(integers(vec![1, 2, 3]));
    assert_eq!(difference.coefficients, vec![0]);

    let difference = integers(vec![-1, -2, -3]) - integers(vec![-3, -2, -1]);
    assert_eq!(difference.coefficients, vec![2, 0, -2]);
}

#[test]
fn test_integer_polynomial_product() {
    let product = integers(vec![1, 2, 3]).multiply(integers(vec![3, 2, 1]));
    assert_eq!(product.coefficients, vec![3, 8, 14, 8, 3]);
    assert_eq!(product.degree(), 4);
}

#[test]
fn test_integer_polynomial_product_with_zero() {
    let product = integers(vec![i64::MAX, -7, 3]).multiply(integers(vec![0]));
    assert_eq!(product.coefficients, vec![0]);
}

#[test]
fn test_integer_product_degree_fails_when_leading_product_wraps_to_zero() {
    let product = integers(vec![1i64 << 32]).multiply(integers(vec![1i64 << 32]));
    assert_eq!(product.coefficients, vec![0]);
    assert_eq!(product.degree(), -1);
}

#[test]
fn test_integer_polynomial_value() {
    assert_eq!(integers(vec![1, 2, 3, 4]).evaluate_at(5), 586);
    assert_eq!(integers(vec![-1, 2, -3, 4]).evaluate_at(-5), -586);
    assert_eq!(integers(vec![1, 2, 3]).evaluate_at(0), 1);
}

#[test]
fn test_integer_polynomial_as_string() {
    assert_eq!(
        integers(vec![1, 2, 0, 3]).as_string(),
        "f(x) = 1 + 2x + 3x^3"
    );
    assert_eq!(integers(vec![-1, 0, -20]).as_string(), "f(x) = -1 + -20x^2");
}

#[test]
fn test_integer_polynomial_diagnostic() {
    assert_eq!(
        integers(vec![1, -2]).diagnostic(),
        "Polynomial { coefficients: [1, -2], indeterminate: 'x', as_string: f(x) = 1 + -2x }"
    );
    assert_eq!(
        integers(vec![]).diagnostic(),
        "Polynomial { coefficients: [0], indeterminate: 'x', as_string: f(x) = 0 }"
    );
}

#[test]
fn test_hand_built_polynomial_without_coefficients() {
    let empty: Polynomial<i64> = Polynomial { coefficients: vec![], indeterminate: 'x' };
    assert_eq!(empty.degree(), -1);
    assert_eq!(empty.as_string(), "f(x) = ");
    assert_eq!(empty.evaluate_at(9), 0);
    assert_eq!(
        empty.diagnostic(),
        "Polynomial { coefficients: [], indeterminate: 'x', as_string: f(x) =  }"
    );
}

#[test]
fn test_integer_polynomial_value_wraps() {
    assert_eq!(integers(vec![0, 1]).evaluate_at(i64::MAX), i64::MAX);
    assert_eq!(integers(vec![1, 1]).evaluate_at(i64::MAX), i64::MIN);
    assert_eq!(integers(vec![0, 0, 1]).evaluate_at(1i64 << 32), 0);
}

#[test]
fn test_with_indeterminate() {
    let polynomial = integers(vec![1, 2]).add(integers(vec![3])).with_indeterminate('t');
    assert_eq!(polynomial.coefficients, vec![4, 2]);
    assert_eq!(polynomial.indeterminate, 't');
    assert_eq!(polynomial.as_string(), "f(t) = 4 + 2t");
}

#[test]
fn test_integer_addition_commutes() {
    let sum = integers(vec![i64::MAX, 2]).add(integers(vec![1, -2, 5]));
    let mirrored = integers(vec![1, -2, 5]).add(integers(vec![i64::MAX, 2]));
    assert_eq!(sum.coefficients, mirrored.coefficients);
    assert_eq!(sum.coefficients, vec![i64::MIN, 0, 5]);
}

#[test]
fn test_integer_normalization_is_idempotent() {
    let first = integers(vec![0, 3, 0, 0]);
    let second = integers(first.coefficients.clone());
    assert_eq!(second.coefficients, first.coefficients);
    assert_eq!(second.coefficients, vec![0, 3]);
}

#[test]
fn test_integer_product_degree_is_the_sum_of_degrees() {
    let a = integers(vec![0, 0, 7]);
    let b = integers(vec![1, -1]);
    assert_eq!(a.degree(), 2);
    assert_eq!(b.degree(), 1);
    assert_eq!(a.multiply(b).degree(), 3);
}
