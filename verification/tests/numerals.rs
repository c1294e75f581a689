// The decimal numeral renderer used for 128-bit constants that escape the
// native 64-bit numeral path: exact digit strings, sign handling, and the
// extreme values of both 128-bit types.

use z3_encoder::numeral::{decimal_digits_i128, decimal_digits_u128};

fn digits(v: &[u8]) -> String {
    String::from_utf8(v.to_vec()).unwrap()
}

#[test]
fn zero_is_a_single_digit() {
    assert_eq!(digits(&decimal_digits_u128(0)), "0");
}

#[test]
fn small_values_render_plainly() {
    assert_eq!(digits(&decimal_digits_u128(42)), "42");
    assert_eq!(digits(&decimal_digits_u128(1000)), "1000");
    assert_eq!(digits(&decimal_digits_i128(-42)), "-42");
    assert_eq!(digits(&decimal_digits_i128(7)), "7");
}

#[test]
fn values_beyond_sixty_four_bits() {
    let v = (u64::MAX as u128) + 1;
    assert_eq!(digits(&decimal_digits_u128(v)), "18446744073709551616");
}

#[test]
fn u128_maximum() {
    assert_eq!(
        digits(&decimal_digits_u128(u128::MAX)),
        "340282366920938463463374607431768211455",
    );
}

#[test]
fn i128_extremes() {
    assert_eq!(
        digits(&decimal_digits_i128(i128::MIN)),
        "-170141183460469231731687303715884105728",
    );
    assert_eq!(
        digits(&decimal_digits_i128(i128::MAX)),
        "170141183460469231731687303715884105727",
    );
}
