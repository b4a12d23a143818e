use rust_101::calculator::add::add;
use rust_101::calculator_2::mul::mul;
use rust_101::calculator_2::power::power;

#[test]
fn add_is_exact() {
    assert_eq!(add(1, 2), 3);
    assert_eq!(add(-5, 2), -3);
    assert_eq!(add(0, 0), 0);
}

#[test]
fn mul_repeats_addition() {
    assert_eq!(mul(3, 4), 12);
    assert_eq!(mul(-3, 4), -12);
    assert_eq!(mul(7, 0), 0);
    assert_eq!(mul(0, 9), 0);
}

#[test]
fn mul_with_negative_round_count_runs_no_rounds() {
    assert_eq!(mul(5, -2), 0);
}

#[test]
fn power_repeats_multiplication() {
    assert_eq!(power(2, 3), 8);
    assert_eq!(power(5, 1), 5);
    assert_eq!(power(10, 4), 10000);
}

#[test]
fn power_with_zero_or_negative_exponent_is_one() {
    assert_eq!(power(2, 0), 1);
    assert_eq!(power(7, -1), 1);
}

#[test]
fn power_of_negative_base_collapses_to_zero() {
    // The first round multiplies by a negative count of additions,
    // which runs no rounds at all, so everything after stays zero.
    assert_eq!(power(-2, 3), 0);
}

#[test]
fn power_of_zero_base() {
    assert_eq!(power(0, 3), 0);
    assert_eq!(power(0, 0), 1);
}
