use fraction::Fraction;

#[test]
fn test_new() {
    let frac = Fraction::new(4, 8);
    assert_eq!(frac.numerator(), 1);
    assert_eq!(frac.denominator(), 2);

    let frac = Fraction::new(0, 1);
    assert_eq!(frac.numerator(), 0);
    assert_eq!(frac.denominator(), 1);
}

#[test]
fn test_to_string() {
    let frac = Fraction::new(1, 2);
    assert_eq!(frac.to_string(), "1/2");

    let frac = Fraction::new(10, 20);
    assert_eq!(frac.to_string(), "1/2");
}

#[test]
fn test_multiply() {
    let frac1 = Fraction::new(1, 2);
    let frac2 = Fraction::new(3, 4);
    let result = frac1.multiply(&frac2);
    assert_eq!(result.to_string(), "3/8");
}

#[test]
fn test_divide() {
    let frac1 = Fraction::new(1, 2);
    let frac2 = Fraction::new(3, 4);
    let result = frac1.divide(&frac2);
    assert_eq!(result.to_string(), "2/3");
}

#[test]
fn test_add() {
    let frac1 = Fraction::new(1, 2);
    let frac2 = Fraction::new(1, 3);
    let result = frac1.add(&frac2);
    assert_eq!(result.to_string(), "5/6");
}

#[test]
fn test_subtract() {
    let frac1 = Fraction::new(1, 2);
    let frac2 = Fraction::new(1, 3);
    let result = frac1.subtract(&frac2);
    assert_eq!(result.to_string(), "1/6");
}

#[test]
fn test_gcd() {
    assert_eq!(Fraction::greatest_common_divisor(48, 18), 6);
    assert_eq!(Fraction::greatest_common_divisor(56, 98), 14);
}

#[test]
fn test_with_different_integer_types() {
    let frac = Fraction::new(100u32, 200u32);
    assert_eq!(frac.to_string(), "1/2");

    let frac = Fraction::new(100i64, 200i64);
    assert_eq!(frac.to_string(), "1/2");

    let frac = Fraction::new(100u8, 200u8);
    assert_eq!(frac.to_string(), "1/2");
}

#[test]
fn zero_numerator_reduces_to_zero_over_one() {
    for denominator in [1u32, 2, 5, 97, 4096, u32::MAX] {
        let frac = Fraction::new(0u32, denominator);
        assert_eq!(frac.numerator(), 0);
        assert_eq!(frac.denominator(), 1);
        assert_eq!(frac.to_string(), "0/1");
    }
}

#[test]
fn new_divides_by_the_greatest_common_divisor() {
    let frac = Fraction::new(84u16, 36u16);
    assert_eq!(frac.numerator(), 7);
    assert_eq!(frac.denominator(), 3);

    let frac = Fraction::new(36u16, 84u16);
    assert_eq!(frac.numerator(), 3);
    assert_eq!(frac.denominator(), 7);

    let frac = Fraction::new(17i64, 5i64);
    assert_eq!(frac.numerator(), 17);
    assert_eq!(frac.denominator(), 5);

    let frac = Fraction::new(9u8, 9u8);
    assert_eq!(frac.to_string(), "1/1");

    let frac = Fraction::new(12i32, 1i32);
    assert_eq!(frac.to_string(), "12/1");
}

#[test]
fn new_leaves_every_pair_in_lowest_terms() {
    for numerator in 0u32..40 {
        for denominator in 1u32..40 {
            let frac = Fraction::new(numerator, denominator);
            let n = frac.numerator();
            let d = frac.denominator();
            assert!(d > 0);
            assert_eq!(Fraction::greatest_common_divisor(n, d), 1);
            assert_eq!(n * denominator, numerator * d);
        }
    }
}

#[test]
fn new_of_a_reduced_fraction_is_that_fraction() {
    let frac = Fraction::new(1, 2);
    let again = Fraction::new(frac.numerator(), frac.denominator());
    assert_eq!(again.numerator(), 1);
    assert_eq!(again.denominator(), 2);

    for numerator in 0u64..30 {
        for denominator in 1u64..30 {
            let frac = Fraction::new(numerator, denominator);
            let again = Fraction::new(frac.numerator(), frac.denominator());
            assert_eq!(again.numerator(), frac.numerator());
            assert_eq!(again.denominator(), frac.denominator());
        }
    }
}

#[test]
fn proportional_pairs_make_the_same_fraction() {
    for scale in 1u32..50 {
        let frac = Fraction::new(3 * scale, 7 * scale);
        assert_eq!(frac.to_string(), "3/7");
    }
    let small = Fraction::new(6u8, 8u8);
    let large = Fraction::new(6_000_000_000u64, 8_000_000_000u64);
    assert_eq!(small.to_string(), "3/4");
    assert_eq!(large.to_string(), "3/4");
}

#[test]
fn every_integer_type_reduces_alike() {
    assert_eq!(Fraction::new(50u8, 100u8).to_string(), "1/2");
    assert_eq!(Fraction::new(50u16, 100u16).to_string(), "1/2");
    assert_eq!(Fraction::new(50u32, 100u32).to_string(), "1/2");
    assert_eq!(Fraction::new(50u64, 100u64).to_string(), "1/2");
    assert_eq!(Fraction::new(50u128, 100u128).to_string(), "1/2");
    assert_eq!(Fraction::new(50usize, 100usize).to_string(), "1/2");
    assert_eq!(Fraction::new(50i8, 100i8).to_string(), "1/2");
    assert_eq!(Fraction::new(50i16, 100i16).to_string(), "1/2");
    assert_eq!(Fraction::new(50i32, 100i32).to_string(), "1/2");
    assert_eq!(Fraction::new(50i64, 100i64).to_string(), "1/2");
    assert_eq!(Fraction::new(50i128, 100i128).to_string(), "1/2");
    assert_eq!(Fraction::new(50isize, 100isize).to_string(), "1/2");
}

#[test]
fn every_integer_type_computes_alike() {
    let a = Fraction::new(1u8, 2u8);
    let b = Fraction::new(3u8, 4u8);
    assert_eq!(a.multiply(&b).to_string(), "3/8");
    assert_eq!(a.divide(&b).to_string(), "2/3");
    assert_eq!(a.add(&b).to_string(), "5/4");
    assert_eq!(b.subtract(&a).to_string(), "1/4");

    let a = Fraction::new(1u32, 2u32);
    let b = Fraction::new(3u32, 4u32);
    assert_eq!(a.multiply(&b).to_string(), "3/8");
    assert_eq!(a.divide(&b).to_string(), "2/3");
    assert_eq!(a.add(&b).to_string(), "5/4");
    assert_eq!(b.subtract(&a).to_string(), "1/4");

    let a = Fraction::new(1i64, 2i64);
    let b = Fraction::new(3i64, 4i64);
    assert_eq!(a.multiply(&b).to_string(), "3/8");
    assert_eq!(a.divide(&b).to_string(), "2/3");
    assert_eq!(a.add(&b).to_string(), "5/4");
    assert_eq!(b.subtract(&a).to_string(), "1/4");

    let a = Fraction::new(1i128, 2i128);
    let b = Fraction::new(3i128, 4i128);
    assert_eq!(a.multiply(&b).to_string(), "3/8");
    assert_eq!(a.divide(&b).to_string(), "2/3");
    assert_eq!(a.add(&b).to_string(), "5/4");
    assert_eq!(b.subtract(&a).to_string(), "1/4");
}

#[test]
fn multiply_reduces_the_product() {
    let a = Fraction::new(2u32, 3u32);
    let b = Fraction::new(3u32, 4u32);
    let product = a.multiply(&b);
    assert_eq!(product.numerator(), 1);
    assert_eq!(product.denominator(), 2);

    let zero = Fraction::new(0u32, 9u32);
    assert_eq!(a.multiply(&zero).to_string(), "0/1");
}

#[test]
fn divide_multiplies_by_the_reciprocal() {
    let a = Fraction::new(5u32, 6u32);
    let b = Fraction::new(10u32, 9u32);
    let quotient = a.divide(&b);
    assert_eq!(quotient.numerator(), 3);
    assert_eq!(quotient.denominator(), 4);

    let zero = Fraction::new(0u32, 9u32);
    assert_eq!(zero.divide(&a).to_string(), "0/1");
}

#[test]
fn add_reduces_the_sum() {
    let a = Fraction::new(1u32, 6u32);
    let b = Fraction::new(1u32, 3u32);
    let sum = a.add(&b);
    assert_eq!(sum.numerator(), 1);
    assert_eq!(sum.denominator(), 2);

    let zero = Fraction::new(0u32, 9u32);
    assert_eq!(a.add(&zero).to_string(), "1/6");
}

#[test]
fn subtract_reduces_the_difference() {
    let a = Fraction::new(5u32, 6u32);
    let b = Fraction::new(1u32, 3u32);
    let difference = a.subtract(&b);
    assert_eq!(difference.numerator(), 1);
    assert_eq!(difference.denominator(), 2);

    assert_eq!(a.subtract(&a).to_string(), "0/1");
}

#[test]
fn a_fraction_divided_by_itself_is_one() {
    for numerator in 1i32..25 {
        for denominator in 1i32..25 {
            let frac = Fraction::new(numerator, denominator);
            let same = Fraction::new(numerator, denominator);
            assert_eq!(frac.divide(&same).to_string(), "1/1");
        }
    }
}

#[test]
fn operations_leave_their_operands_as_they_were() {
    let a = Fraction::new(1, 2);
    let b = Fraction::new(2, 3);
    let _ = a.multiply(&b);
    let _ = a.divide(&b);
    let _ = a.add(&b);
    let _ = b.subtract(&a);
    assert_eq!(a.to_string(), "1/2");
    assert_eq!(b.to_string(), "2/3");
}

#[test]
fn products_wrap_in_a_narrow_type() {
    // In eight bits 16 * 16 wraps to 0 and 17 * 19 to 67.
    let a = Fraction::new(16u8, 17u8);
    let b = Fraction::new(16u8, 19u8);
    assert_eq!(a.multiply(&b).to_string(), "0/1");

    // In eight bits 15 * 20 wraps to 44 and 7 * 41 to 31.
    let a = Fraction::new(15u8, 7u8);
    let b = Fraction::new(20u8, 41u8);
    assert_eq!(a.multiply(&b).to_string(), "44/31");
}

#[test]
fn sums_and_differences_wrap_in_a_narrow_type() {
    // In eight bits 1 * 2 - 1 * 3 wraps to 255, over 6.
    let a = Fraction::new(1u8, 3u8);
    let b = Fraction::new(1u8, 2u8);
    assert_eq!(a.subtract(&b).to_string(), "85/2");

    // In eight bits 100 * 1 + 60 * 3 wraps to 24, over 3.
    let a = Fraction::new(100u8, 3u8);
    let b = Fraction::new(60u8, 1u8);
    assert_eq!(a.add(&b).to_string(), "8/1");
}

#[test]
fn text_has_every_digit() {
    assert_eq!(Fraction::new(1234567890u64, 987654321u64).to_string(), "137174210/109739369");
    assert_eq!(Fraction::new(1009u32, 7u32).to_string(), "1009/7");
    assert_eq!(
        Fraction::new(u128::MAX, 1u128).to_string(),
        "340282366920938463463374607431768211455/1"
    );
    assert_eq!(Fraction::new(i64::MAX, 1i64).to_string(), "9223372036854775807/1");
}

#[test]
fn debug_text_names_both_fields() {
    let frac = Fraction::new(1, 2);
    assert_eq!(format!("{:?}", frac), "Fraction { numerator: 1, denominator: 2 }");
}

#[test]
fn gcd_of_zero_and_of_equal_values() {
    assert_eq!(Fraction::greatest_common_divisor(0u32, 0u32), 0);
    assert_eq!(Fraction::greatest_common_divisor(0u32, 5u32), 5);
    assert_eq!(Fraction::greatest_common_divisor(5u32, 0u32), 5);
    assert_eq!(Fraction::greatest_common_divisor(7u32, 7u32), 7);
    assert_eq!(Fraction::greatest_common_divisor(1u32, 1u32), 1);
}

#[test]
fn gcd_takes_its_arguments_in_either_order() {
    for a in 0u16..60 {
        for b in 0u16..60 {
            assert_eq!(
                Fraction::greatest_common_divisor(a, b),
                Fraction::greatest_common_divisor(b, a)
            );
        }
    }
}

#[test]
fn gcd_divides_both_and_is_the_greatest() {
    for a in 1u32..50 {
        for b in 1u32..50 {
            let g = Fraction::greatest_common_divisor(a, b);
            assert!(g > 0);
            assert_eq!(a % g, 0);
            assert_eq!(b % g, 0);
            for c in 1..=a.min(b) {
                if a % c == 0 && b % c == 0 {
                    assert_eq!(g % c, 0);
                }
            }
        }
    }
}

#[test]
fn gcd_of_wide_values() {
    assert_eq!(
        Fraction::greatest_common_divisor(u128::MAX, u64::MAX as u128),
        u64::MAX as u128
    );
    assert_eq!(Fraction::greatest_common_divisor(i64::MAX, 7i64), 7);
    assert_eq!(Fraction::greatest_common_divisor(1_000_000_007u64, 998_244_353u64), 1);
    assert_eq!(Fraction::greatest_common_divisor(255u8, 85u8), 85);
    assert_eq!(Fraction::greatest_common_divisor(127i8, 127i8), 127);
}

#[test]
fn demonstration_values() {
    let frac = Fraction::new(1, 2);
    let mul_frac = Fraction::new(2, 3);
    let res_frac = frac.multiply(&mul_frac);
    assert_eq!(res_frac.to_string(), "1/3");
    let div_frac: Fraction<i32> = res_frac.divide(&mul_frac);
    assert_eq!(div_frac.to_string(), "1/2");
}
