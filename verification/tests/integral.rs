use fraction::decimal::{render_decimal, render_digits};
use fraction::Integral;

#[test]
fn zero_is_zero_in_every_type() {
    assert_eq!(<u8 as Integral>::zero(), 0);
    assert_eq!(<u16 as Integral>::zero(), 0);
    assert_eq!(<u32 as Integral>::zero(), 0);
    assert_eq!(<u64 as Integral>::zero(), 0);
    assert_eq!(<u128 as Integral>::zero(), 0);
    assert_eq!(<usize as Integral>::zero(), 0);
    assert_eq!(<i8 as Integral>::zero(), 0);
    assert_eq!(<i16 as Integral>::zero(), 0);
    assert_eq!(<i32 as Integral>::zero(), 0);
    assert_eq!(<i64 as Integral>::zero(), 0);
    assert_eq!(<i128 as Integral>::zero(), 0);
    assert_eq!(<isize as Integral>::zero(), 0);
}

#[test]
fn values_compare_as_their_integers() {
    assert!(Integral::equals(7u8, 7u8));
    assert!(!Integral::equals(7u8, 8u8));
    assert!(Integral::less_than(7u8, 8u8));
    assert!(!Integral::less_than(8u8, 8u8));
    assert!(!Integral::less_than(9u8, 8u8));
    assert!(Integral::less_than(-3i32, 2i32));
    assert!(Integral::less_than(i64::MIN, i64::MAX));
    assert!(!Integral::less_than(0i128, -1i128));
    assert!(Integral::equals(-5isize, -5isize));
}

#[test]
fn sums_wrap_into_the_range() {
    assert_eq!(Integral::wrapping_add(200u8, 100u8), 44);
    assert_eq!(Integral::wrapping_add(200u8, 55u8), 255);
    assert_eq!(Integral::wrapping_add(u64::MAX, 1u64), 0);
    assert_eq!(Integral::wrapping_add(100i8, 100i8), -56);
    assert_eq!(Integral::wrapping_add(-100i8, -100i8), 56);
    assert_eq!(Integral::wrapping_add(i32::MAX, 1i32), i32::MIN);
    assert_eq!(Integral::wrapping_add(3i32, 4i32), 7);
    assert_eq!(Integral::wrapping_add(u128::MAX, u128::MAX), u128::MAX - 1);
}

#[test]
fn differences_wrap_into_the_range() {
    assert_eq!(Integral::wrapping_sub(2u8, 3u8), 255);
    assert_eq!(Integral::wrapping_sub(3u8, 2u8), 1);
    assert_eq!(Integral::wrapping_sub(0u32, 1u32), u32::MAX);
    assert_eq!(Integral::wrapping_sub(-100i8, 100i8), 56);
    assert_eq!(Integral::wrapping_sub(100i8, -100i8), -56);
    assert_eq!(Integral::wrapping_sub(i64::MIN, 1i64), i64::MAX);
    assert_eq!(Integral::wrapping_sub(0usize, 1usize), usize::MAX);
}

#[test]
fn products_wrap_into_the_range() {
    assert_eq!(Integral::wrapping_mul(16u8, 16u8), 0);
    assert_eq!(Integral::wrapping_mul(17u8, 19u8), 67);
    assert_eq!(Integral::wrapping_mul(100i8, 3i8), 44);
    assert_eq!(Integral::wrapping_mul(100i8, 2i8), -56);
    assert_eq!(Integral::wrapping_mul(-100i8, 2i8), 56);
    assert_eq!(Integral::wrapping_mul(i8::MIN, -1i8), i8::MIN);
    assert_eq!(Integral::wrapping_mul(65_536u32, 65_536u32), 0);
    assert_eq!(Integral::wrapping_mul(6i64, 7i64), 42);
    assert_eq!(Integral::wrapping_mul(u128::MAX, 2u128), u128::MAX - 1);
    assert_eq!(Integral::wrapping_mul(isize::MAX, 2isize), -2);
}

#[test]
fn quotients_round_toward_zero() {
    assert_eq!(Integral::quotient(7u8, 2u8), 3);
    assert_eq!(Integral::quotient(7i32, 2i32), 3);
    assert_eq!(Integral::quotient(-7i32, 2i32), -3);
    assert_eq!(Integral::quotient(7i32, -2i32), -3);
    assert_eq!(Integral::quotient(-7i32, -2i32), 3);
    assert_eq!(Integral::quotient(0i32, -2i32), 0);
    assert_eq!(Integral::quotient(i64::MIN, 1i64), i64::MIN);
    assert_eq!(Integral::quotient(i64::MAX, -1i64), -i64::MAX);
    assert_eq!(Integral::quotient(u128::MAX, u128::MAX), 1);
}

#[test]
fn remainders_take_the_sign_of_the_dividend() {
    assert_eq!(Integral::remainder(7u8, 2u8), 1);
    assert_eq!(Integral::remainder(7i32, 2i32), 1);
    assert_eq!(Integral::remainder(-7i32, 2i32), -1);
    assert_eq!(Integral::remainder(7i32, -2i32), 1);
    assert_eq!(Integral::remainder(-7i32, -2i32), -1);
    assert_eq!(Integral::remainder(-8i32, 2i32), 0);
    assert_eq!(Integral::remainder(i8::MIN, 3i8), -2);
    assert_eq!(Integral::remainder(200u8, 100u8), 0);
}

#[test]
fn decimal_text_of_unsigned_values() {
    assert_eq!(Integral::to_decimal(0u8), "0");
    assert_eq!(Integral::to_decimal(7u8), "7");
    assert_eq!(Integral::to_decimal(10u8), "10");
    assert_eq!(Integral::to_decimal(255u8), "255");
    assert_eq!(Integral::to_decimal(65_535u16), "65535");
    assert_eq!(Integral::to_decimal(4_294_967_295u32), "4294967295");
    assert_eq!(Integral::to_decimal(u64::MAX), "18446744073709551615");
    assert_eq!(Integral::to_decimal(u128::MAX), "340282366920938463463374607431768211455");
    assert_eq!(Integral::to_decimal(1_000usize), "1000");
}

#[test]
fn decimal_text_of_signed_values() {
    assert_eq!(Integral::to_decimal(0i8), "0");
    assert_eq!(Integral::to_decimal(-1i8), "-1");
    assert_eq!(Integral::to_decimal(i8::MIN), "-128");
    assert_eq!(Integral::to_decimal(i8::MAX), "127");
    assert_eq!(Integral::to_decimal(-12i16), "-12");
    assert_eq!(Integral::to_decimal(i16::MIN), "-32768");
    assert_eq!(Integral::to_decimal(i32::MIN), "-2147483648");
    assert_eq!(Integral::to_decimal(i64::MIN), "-9223372036854775808");
    assert_eq!(Integral::to_decimal(i64::MAX), "9223372036854775807");
    assert_eq!(Integral::to_decimal(i128::MIN), "-170141183460469231731687303715884105728");
    assert_eq!(Integral::to_decimal(i128::MAX), "170141183460469231731687303715884105727");
    assert_eq!(Integral::to_decimal(-1_000isize), "-1000");
}

#[test]
fn decimal_text_agrees_with_the_language() {
    for value in 0u32..2_000 {
        assert_eq!(Integral::to_decimal(value), format!("{}", value));
    }
    for value in -1_000i32..1_000 {
        assert_eq!(Integral::to_decimal(value), format!("{}", value));
    }
}

#[test]
fn digits_have_no_leading_zero() {
    assert_eq!(render_digits(0), "0");
    assert_eq!(render_digits(9), "9");
    assert_eq!(render_digits(10), "10");
    assert_eq!(render_digits(100), "100");
    assert_eq!(render_digits(1_020_304), "1020304");
}

#[test]
fn a_minus_sign_comes_before_the_digits() {
    assert_eq!(render_decimal(false, 0), "0");
    assert_eq!(render_decimal(false, 45), "45");
    assert_eq!(render_decimal(true, 45), "-45");
    assert_eq!(render_decimal(true, 1), "-1");
}
