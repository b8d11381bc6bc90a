//! [`Integral`] for the signed integer types.

use crate::decimal::render_decimal;
use crate::integral::{
    lemma_truncated_quotient_bounds, lemma_truncated_quotient_by_minus_one,
    lemma_truncated_remainder_bounds, lemma_wrap_around_zero, lemma_wrap_unique, Integral,
};
use vstd::arithmetic::div_mod::lemma_mod_bound;
use vstd::prelude::*;

verus! {

impl Integral for i8 {
    open spec fn value(self) -> int {
        self as int
    }

    open spec fn lowest() -> int {
        i8::MIN as int
    }

    open spec fn highest() -> int {
        i8::MAX as int
    }

    proof fn lemma_range() {
    }

    proof fn lemma_value_in_range(x: Self) {
    }

    proof fn lemma_value_injective(x: Self, y: Self) {
    }

    fn zero() -> Self {
        0
    }

    fn equals(self, other: Self) -> bool {
        self == other
    }

    fn less_than(self, other: Self) -> bool {
        self < other
    }

    fn wrapping_add(self, other: Self) -> Self {
        let r = i8::wrapping_add(self, other);
        proof {
            let k: int = if self + other > i8::MAX {
                -1
            } else if self + other < i8::MIN {
                1
            } else {
                0
            };
            lemma_wrap_unique(self + other, r as int, k, i8::MIN as int, i8::MAX as int);
        }
        r
    }

    fn wrapping_sub(self, other: Self) -> Self {
        let r = i8::wrapping_sub(self, other);
        proof {
            let k: int = if self - other > i8::MAX {
                -1
            } else if self - other < i8::MIN {
                1
            } else {
                0
            };
            lemma_wrap_unique(self - other, r as int, k, i8::MIN as int, i8::MAX as int);
        }
        r
    }

    fn wrapping_mul(self, other: Self) -> Self {
        let r = i8::wrapping_mul(self, other);
        proof {
            lemma_mod_bound(self * other, 2 * (i8::MAX as int + 1));
            lemma_wrap_around_zero(self * other, i8::MAX as int + 1);
        }
        r
    }

    fn quotient(self, divisor: Self) -> Self {
        proof {
            lemma_truncated_quotient_by_minus_one(self as int);
            lemma_truncated_quotient_bounds(self as int, divisor as int);
        }
        self / divisor
    }

    fn remainder(self, divisor: Self) -> Self {
        proof {
            lemma_truncated_quotient_by_minus_one(self as int);
            lemma_truncated_remainder_bounds(self as int, divisor as int);
        }
        self % divisor
    }

    fn to_decimal(self) -> String {
        if self < 0 {
            render_decimal(true, (-(self as i128)) as u128)
        } else {
            render_decimal(false, self as u128)
        }
    }
}

impl Integral for i16 {
    open spec fn value(self) -> int {
        self as int
    }

    open spec fn lowest() -> int {
        i16::MIN as int
    }

    open spec fn highest() -> int {
        i16::MAX as int
    }

    proof fn lemma_range() {
    }

    proof fn lemma_value_in_range(x: Self) {
    }

    proof fn lemma_value_injective(x: Self, y: Self) {
    }

    fn zero() -> Self {
        0
    }

    fn equals(self, other: Self) -> bool {
        self == other
    }

    fn less_than(self, other: Self) -> bool {
        self < other
    }

    fn wrapping_add(self, other: Self) -> Self {
        let r = i16::wrapping_add(self, other);
        proof {
            let k: int = if self + other > i16::MAX {
                -1
            } else if self + other < i16::MIN {
                1
            } else {
                0
            };
            lemma_wrap_unique(self + other, r as int, k, i16::MIN as int, i16::MAX as int);
        }
        r
    }

    fn wrapping_sub(self, other: Self) -> Self {
        let r = i16::wrapping_sub(self, other);
        proof {
            let k: int = if self - other > i16::MAX {
                -1
            } else if self - other < i16::MIN {
                1
            } else {
                0
            };
            lemma_wrap_unique(self - other, r as int, k, i16::MIN as int, i16::MAX as int);
        }
        r
    }

    fn wrapping_mul(self, other: Self) -> Self {
        let r = i16::wrapping_mul(self, other);
        proof {
            lemma_mod_bound(self * other, 2 * (i16::MAX as int + 1));
            lemma_wrap_around_zero(self * other, i16::MAX as int + 1);
        }
        r
    }

    fn quotient(self, divisor: Self) -> Self {
        proof {
            lemma_truncated_quotient_by_minus_one(self as int);
            lemma_truncated_quotient_bounds(self as int, divisor as int);
        }
        self / divisor
    }

    fn remainder(self, divisor: Self) -> Self {
        proof {
            lemma_truncated_quotient_by_minus_one(self as int);
            lemma_truncated_remainder_bounds(self as int, divisor as int);
        }
        self % divisor
    }

    fn to_decimal(self) -> String {
        if self < 0 {
            render_decimal(true, (-(self as i128)) as u128)
        } else {
            render_decimal(false, self as u128)
        }
    }
}

impl Integral for i32 {
    open spec fn value(self) -> int {
        self as int
    }

    open spec fn lowest() -> int {
        i32::MIN as int
    }

    open spec fn highest() -> int {
        i32::MAX as int
    }

    proof fn lemma_range() {
    }

    proof fn lemma_value_in_range(x: Self) {
    }

    proof fn lemma_value_injective(x: Self, y: Self) {
    }

    fn zero() -> Self {
        0
    }

    fn equals(self, other: Self) -> bool {
        self == other
    }

    fn less_than(self, other: Self) -> bool {
        self < other
    }

    fn wrapping_add(self, other: Self) -> Self {
        let r = i32::wrapping_add(self, other);
        proof {
            let k: int = if self + other > i32::MAX {
                -1
            } else if self + other < i32::MIN {
                1
            } else {
                0
            };
            lemma_wrap_unique(self + other, r as int, k, i32::MIN as int, i32::MAX as int);
        }
        r
    }

    fn wrapping_sub(self, other: Self) -> Self {
        let r = i32::wrapping_sub(self, other);
        proof {
            let k: int = if self - other > i32::MAX {
                -1
            } else if self - other < i32::MIN {
                1
            } else {
                0
            };
            lemma_wrap_unique(self - other, r as int, k, i32::MIN as int, i32::MAX as int);
        }
        r
    }

    fn wrapping_mul(self, other: Self) -> Self {
        let r = i32::wrapping_mul(self, other);
        proof {
            lemma_mod_bound(self * other, 2 * (i32::MAX as int + 1));
            lemma_wrap_around_zero(self * other, i32::MAX as int + 1);
        }
        r
    }

    fn quotient(self, divisor: Self) -> Self {
        proof {
            lemma_truncated_quotient_by_minus_one(self as int);
            lemma_truncated_quotient_bounds(self as int, divisor as int);
        }
        self / divisor
    }

    fn remainder(self, divisor: Self) -> Self {
        proof {
            lemma_truncated_quotient_by_minus_one(self as int);
            lemma_truncated_remainder_bounds(self as int, divisor as int);
        }
        self % divisor
    }

    fn to_decimal(self) -> String {
        if self < 0 {
            render_decimal(true, (-(self as i128)) as u128)
        } else {
            render_decimal(false, self as u128)
        }
    }
}

impl Integral for i64 {
    open spec fn value(self) -> int {
        self as int
    }

    open spec fn lowest() -> int {
        i64::MIN as int
    }

    open spec fn highest() -> int {
        i64::MAX as int
    }

    proof fn lemma_range() {
    }

    proof fn lemma_value_in_range(x: Self) {
    }

    proof fn lemma_value_injective(x: Self, y: Self) {
    }

    fn zero() -> Self {
        0
    }

    fn equals(self, other: Self) -> bool {
        self == other
    }

    fn less_than(self, other: Self) -> bool {
        self < other
    }

    fn wrapping_add(self, other: Self) -> Self {
        let r = i64::wrapping_add(self, other);
        proof {
            let k: int = if self + other > i64::MAX {
                -1
            } else if self + other < i64::MIN {
                1
            } else {
                0
            };
            lemma_wrap_unique(self + other, r as int, k, i64::MIN as int, i64::MAX as int);
        }
        r
    }

    fn wrapping_sub(self, other: Self) -> Self {
        let r = i64::wrapping_sub(self, other);
        proof {
            let k: int = if self - other > i64::MAX {
                -1
            } else if self - other < i64::MIN {
                1
            } else {
                0
            };
            lemma_wrap_unique(self - other, r as int, k, i64::MIN as int, i64::MAX as int);
        }
        r
    }

    fn wrapping_mul(self, other: Self) -> Self {
        let r = i64::wrapping_mul(self, other);
        proof {
            lemma_mod_bound(self * other, 2 * (i64::MAX as int + 1));
            lemma_wrap_around_zero(self * other, i64::MAX as int + 1);
        }
        r
    }

    fn quotient(self, divisor: Self) -> Self {
        proof {
            lemma_truncated_quotient_by_minus_one(self as int);
            lemma_truncated_quotient_bounds(self as int, divisor as int);
        }
        self / divisor
    }

    fn remainder(self, divisor: Self) -> Self {
        proof {
            lemma_truncated_quotient_by_minus_one(self as int);
            lemma_truncated_remainder_bounds(self as int, divisor as int);
        }
        self % divisor
    }

    fn to_decimal(self) -> String {
        if self < 0 {
            render_decimal(true, (-(self as i128)) as u128)
        } else {
            render_decimal(false, self as u128)
        }
    }
}

impl Integral for i128 {
    open spec fn value(self) -> int {
        self as int
    }

    open spec fn lowest() -> int {
        i128::MIN as int
    }

    open spec fn highest() -> int {
        i128::MAX as int
    }

    proof fn lemma_range() {
    }

    proof fn lemma_value_in_range(x: Self) {
    }

    proof fn lemma_value_injective(x: Self, y: Self) {
    }

    fn zero() -> Self {
        0
    }

    fn equals(self, other: Self) -> bool {
        self == other
    }

    fn less_than(self, other: Self) -> bool {
        self < other
    }

    fn wrapping_add(self, other: Self) -> Self {
        let r = i128::wrapping_add(self, other);
        proof {
            let k: int = if self + other > i128::MAX {
                -1
            } else if self + other < i128::MIN {
                1
            } else {
                0
            };
            lemma_wrap_unique(self + other, r as int, k, i128::MIN as int, i128::MAX as int);
        }
        r
    }

    fn wrapping_sub(self, other: Self) -> Self {
        let r = i128::wrapping_sub(self, other);
        proof {
            let k: int = if self - other > i128::MAX {
                -1
            } else if self - other < i128::MIN {
                1
            } else {
                0
            };
            lemma_wrap_unique(self - other, r as int, k, i128::MIN as int, i128::MAX as int);
        }
        r
    }

    fn wrapping_mul(self, other: Self) -> Self {
        let r = i128::wrapping_mul(self, other);
        proof {
            lemma_mod_bound(self * other, 2 * (i128::MAX as int + 1));
            lemma_wrap_around_zero(self * other, i128::MAX as int + 1);
        }
        r
    }

    fn quotient(self, divisor: Self) -> Self {
        proof {
            lemma_truncated_quotient_by_minus_one(self as int);
            lemma_truncated_quotient_bounds(self as int, divisor as int);
        }
        self / divisor
    }

    fn remainder(self, divisor: Self) -> Self {
        proof {
            lemma_truncated_quotient_by_minus_one(self as int);
            lemma_truncated_remainder_bounds(self as int, divisor as int);
        }
        self % divisor
    }

    fn to_decimal(self) -> String {
        if self < 0 {
            render_decimal(true, (-(self + 1)) as u128 + 1)
        } else {
            render_decimal(false, self as u128)
        }
    }
}

impl Integral for isize {
    open spec fn value(self) -> int {
        self as int
    }

    open spec fn lowest() -> int {
        isize::MIN as int
    }

    open spec fn highest() -> int {
        isize::MAX as int
    }

    proof fn lemma_range() {
    }

    proof fn lemma_value_in_range(x: Self) {
    }

    proof fn lemma_value_injective(x: Self, y: Self) {
    }

    fn zero() -> Self {
        0
    }

    fn equals(self, other: Self) -> bool {
        self == other
    }

    fn less_than(self, other: Self) -> bool {
        self < other
    }

    fn wrapping_add(self, other: Self) -> Self {
        let r = isize::wrapping_add(self, other);
        proof {
            let k: int = if self + other > isize::MAX {
                -1
            } else if self + other < isize::MIN {
                1
            } else {
                0
            };
            lemma_wrap_unique(self + other, r as int, k, isize::MIN as int, isize::MAX as int);
        }
        r
    }

    fn wrapping_sub(self, other: Self) -> Self {
        let r = isize::wrapping_sub(self, other);
        proof {
            let k: int = if self - other > isize::MAX {
                -1
            } else if self - other < isize::MIN {
                1
            } else {
                0
            };
            lemma_wrap_unique(self - other, r as int, k, isize::MIN as int, isize::MAX as int);
        }
        r
    }

    fn wrapping_mul(self, other: Self) -> Self {
        let r = isize::wrapping_mul(self, other);
        proof {
            lemma_mod_bound(self * other, 2 * (isize::MAX as int + 1));
            lemma_wrap_around_zero(self * other, isize::MAX as int + 1);
        }
        r
    }

    fn quotient(self, divisor: Self) -> Self {
        proof {
            lemma_truncated_quotient_by_minus_one(self as int);
            lemma_truncated_quotient_bounds(self as int, divisor as int);
        }
        self / divisor
    }

    fn remainder(self, divisor: Self) -> Self {
        proof {
            lemma_truncated_quotient_by_minus_one(self as int);
            lemma_truncated_remainder_bounds(self as int, divisor as int);
        }
        self % divisor
    }

    fn to_decimal(self) -> String {
        if self < 0 {
            render_decimal(true, (-(self as i128)) as u128)
        } else {
            render_decimal(false, self as u128)
        }
    }
}

} // verus!
