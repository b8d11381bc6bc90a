//! [`Integral`] for the unsigned integer types.

use crate::decimal::render_decimal;
use crate::integral::{lemma_wrap_from_zero, lemma_wrap_unique, Integral};
use vstd::arithmetic::div_mod::lemma_mod_bound;
use vstd::arithmetic::mul::lemma_mul_nonnegative;
use vstd::prelude::*;

verus! {

impl Integral for u8 {
    open spec fn value(self) -> int {
        self as int
    }

    open spec fn lowest() -> int {
        u8::MIN as int
    }

    open spec fn highest() -> int {
        u8::MAX as int
    }

    proof fn lemma_range() {
    }

    proof fn lemma_value_in_range(x: Self) {
    }

    proof fn lemma_value_injective(x: Self, y: Self) {
    }

    fn zero() -> Self {
        0
    }

    fn equals(self, other: Self) -> bool {
        self == other
    }

    fn less_than(self, other: Self) -> bool {
        self < other
    }

    fn wrapping_add(self, other: Self) -> Self {
        let r = u8::wrapping_add(self, other);
        proof {
            let k: int = if self + other > u8::MAX {
                -1
            } else {
                0
            };
            lemma_wrap_unique(self + other, r as int, k, u8::MIN as int, u8::MAX as int);
        }
        r
    }

    fn wrapping_sub(self, other: Self) -> Self {
        let r = u8::wrapping_sub(self, other);
        proof {
            let k: int = if self - other < 0 {
                1
            } else {
                0
            };
            lemma_wrap_unique(self - other, r as int, k, u8::MIN as int, u8::MAX as int);
        }
        r
    }

    fn wrapping_mul(self, other: Self) -> Self {
        let r = u8::wrapping_mul(self, other);
        proof {
            lemma_mul_nonnegative(self as int, other as int);
            lemma_mod_bound(self * other, u8::MAX as int + 1);
            lemma_wrap_from_zero(self * other, u8::MAX as int + 1);
        }
        r
    }

    fn quotient(self, divisor: Self) -> Self {
        self / divisor
    }

    fn remainder(self, divisor: Self) -> Self {
        self % divisor
    }

    fn to_decimal(self) -> String {
        render_decimal(false, self as u128)
    }
}

impl Integral for u16 {
    open spec fn value(self) -> int {
        self as int
    }

    open spec fn lowest() -> int {
        u16::MIN as int
    }

    open spec fn highest() -> int {
        u16::MAX as int
    }

    proof fn lemma_range() {
    }

    proof fn lemma_value_in_range(x: Self) {
    }

    proof fn lemma_value_injective(x: Self, y: Self) {
    }

    fn zero() -> Self {
        0
    }

    fn equals(self, other: Self) -> bool {
        self == other
    }

    fn less_than(self, other: Self) -> bool {
        self < other
    }

    fn wrapping_add(self, other: Self) -> Self {
        let r = u16::wrapping_add(self, other);
        proof {
            let k: int = if self + other > u16::MAX {
                -1
            } else {
                0
            };
            lemma_wrap_unique(self + other, r as int, k, u16::MIN as int, u16::MAX as int);
        }
        r
    }

    fn wrapping_sub(self, other: Self) -> Self {
        let r = u16::wrapping_sub(self, other);
        proof {
            let k: int = if self - other < 0 {
                1
            } else {
                0
            };
            lemma_wrap_unique(self - other, r as int, k, u16::MIN as int, u16::MAX as int);
        }
        r
    }

    fn wrapping_mul(self, other: Self) -> Self {
        let r = u16::wrapping_mul(self, other);
        proof {
            lemma_mul_nonnegative(self as int, other as int);
            lemma_mod_bound(self * other, u16::MAX as int + 1);
            lemma_wrap_from_zero(self * other, u16::MAX as int + 1);
        }
        r
    }

    fn quotient(self, divisor: Self) -> Self {
        self / divisor
    }

    fn remainder(self, divisor: Self) -> Self {
        self % divisor
    }

    fn to_decimal(self) -> String {
        render_decimal(false, self as u128)
    }
}

impl Integral for u32 {
    open spec fn value(self) -> int {
        self as int
    }

    open spec fn lowest() -> int {
        u32::MIN as int
    }

    open spec fn highest() -> int {
        u32::MAX as int
    }

    proof fn lemma_range() {
    }

    proof fn lemma_value_in_range(x: Self) {
    }

    proof fn lemma_value_injective(x: Self, y: Self) {
    }

    fn zero() -> Self {
        0
    }

    fn equals(self, other: Self) -> bool {
        self == other
    }

    fn less_than(self, other: Self) -> bool {
        self < other
    }

    fn wrapping_add(self, other: Self) -> Self {
        let r = u32::wrapping_add(self, other);
        proof {
            let k: int = if self + other > u32::MAX {
                -1
            } else {
                0
            };
            lemma_wrap_unique(self + other, r as int, k, u32::MIN as int, u32::MAX as int);
        }
        r
    }

    fn wrapping_sub(self, other: Self) -> Self {
        let r = u32::wrapping_sub(self, other);
        proof {
            let k: int = if self - other < 0 {
                1
            } else {
                0
            };
            lemma_wrap_unique(self - other, r as int, k, u32::MIN as int, u32::MAX as int);
        }
        r
    }

    fn wrapping_mul(self, other: Self) -> Self {
        let r = u32::wrapping_mul(self, other);
        proof {
            lemma_mul_nonnegative(self as int, other as int);
            lemma_mod_bound(self * other, u32::MAX as int + 1);
            lemma_wrap_from_zero(self * other, u32::MAX as int + 1);
        }
        r
    }

    fn quotient(self, divisor: Self) -> Self {
        self / divisor
    }

    fn remainder(self, divisor: Self) -> Self {
        self % divisor
    }

    fn to_decimal(self) -> String {
        render_decimal(false, self as u128)
    }
}

impl Integral for u64 {
    open spec fn value(self) -> int {
        self as int
    }

    open spec fn lowest() -> int {
        u64::MIN as int
    }

    open spec fn highest() -> int {
        u64::MAX as int
    }

    proof fn lemma_range() {
    }

    proof fn lemma_value_in_range(x: Self) {
    }

    proof fn lemma_value_injective(x: Self, y: Self) {
    }

    fn zero() -> Self {
        0
    }

    fn equals(self, other: Self) -> bool {
        self == other
    }

    fn less_than(self, other: Self) -> bool {
        self < other
    }

    fn wrapping_add(self, other: Self) -> Self {
        let r = u64::wrapping_add(self, other);
        proof {
            let k: int = if self + other > u64::MAX {
                -1
            } else {
                0
            };
            lemma_wrap_unique(self + other, r as int, k, u64::MIN as int, u64::MAX as int);
        }
        r
    }

    fn wrapping_sub(self, other: Self) -> Self {
        let r = u64::wrapping_sub(self, other);
        proof {
            let k: int = if self - other < 0 {
                1
            } else {
                0
            };
            lemma_wrap_unique(self - other, r as int, k, u64::MIN as int, u64::MAX as int);
        }
        r
    }

    fn wrapping_mul(self, other: Self) -> Self {
        let r = u64::wrapping_mul(self, other);
        proof {
            lemma_mul_nonnegative(self as int, other as int);
            lemma_mod_bound(self * other, u64::MAX as int + 1);
            lemma_wrap_from_zero(self * other, u64::MAX as int + 1);
        }
        r
    }

    fn quotient(self, divisor: Self) -> Self {
        self / divisor
    }

    fn remainder(self, divisor: Self) -> Self {
        self % divisor
    }

    fn to_decimal(self) -> String {
        render_decimal(false, self as u128)
    }
}

impl Integral for u128 {
    open spec fn value(self) -> int {
        self as int
    }

    open spec fn lowest() -> int {
        u128::MIN as int
    }

    open spec fn highest() -> int {
        u128::MAX as int
    }

    proof fn lemma_range() {
    }

    proof fn lemma_value_in_range(x: Self) {
    }

    proof fn lemma_value_injective(x: Self, y: Self) {
    }

    fn zero() -> Self {
        0
    }

    fn equals(self, other: Self) -> bool {
        self == other
    }

    fn less_than(self, other: Self) -> bool {
        self < other
    }

    fn wrapping_add(self, other: Self) -> Self {
        let r = u128::wrapping_add(self, other);
        proof {
            let k: int = if self + other > u128::MAX {
                -1
            } else {
                0
            };
            lemma_wrap_unique(self + other, r as int, k, u128::MIN as int, u128::MAX as int);
        }
        r
    }

    fn wrapping_sub(self, other: Self) -> Self {
        let r = u128::wrapping_sub(self, other);
        proof {
            let k: int = if self - other < 0 {
                1
            } else {
                0
            };
            lemma_wrap_unique(self - other, r as int, k, u128::MIN as int, u128::MAX as int);
        }
        r
    }

    fn wrapping_mul(self, other: Self) -> Self {
        let r = u128::wrapping_mul(self, other);
        proof {
            lemma_mul_nonnegative(self as int, other as int);
            lemma_mod_bound(self * other, u128::MAX as int + 1);
            lemma_wrap_from_zero(self * other, u128::MAX as int + 1);
        }
        r
    }

    fn quotient(self, divisor: Self) -> Self {
        self / divisor
    }

    fn remainder(self, divisor: Self) -> Self {
        self % divisor
    }

    fn to_decimal(self) -> String {
        render_decimal(false, self as u128)
    }
}

impl Integral for usize {
    open spec fn value(self) -> int {
        self as int
    }

    open spec fn lowest() -> int {
        usize::MIN as int
    }

    open spec fn highest() -> int {
        usize::MAX as int
    }

    proof fn lemma_range() {
    }

    proof fn lemma_value_in_range(x: Self) {
    }

    proof fn lemma_value_injective(x: Self, y: Self) {
    }

    fn zero() -> Self {
        0
    }

    fn equals(self, other: Self) -> bool {
        self == other
    }

    fn less_than(self, other: Self) -> bool {
        self < other
    }

    fn wrapping_add(self, other: Self) -> Self {
        let r = usize::wrapping_add(self, other);
        proof {
            let k: int = if self + other > usize::MAX {
                -1
            } else {
                0
            };
            lemma_wrap_unique(self + other, r as int, k, usize::MIN as int, usize::MAX as int);
        }
        r
    }

    fn wrapping_sub(self, other: Self) -> Self {
        let r = usize::wrapping_sub(self, other);
        proof {
            let k: int = if self - other < 0 {
                1
            } else {
                0
            };
            lemma_wrap_unique(self - other, r as int, k, usize::MIN as int, usize::MAX as int);
        }
        r
    }

    fn wrapping_mul(self, other: Self) -> Self {
        let r = usize::wrapping_mul(self, other);
        proof {
            lemma_mul_nonnegative(self as int, other as int);
            lemma_mod_bound(self * other, usize::MAX as int + 1);
            lemma_wrap_from_zero(self * other, usize::MAX as int + 1);
        }
        r
    }

    fn quotient(self, divisor: Self) -> Self {
        self / divisor
    }

    fn remainder(self, divisor: Self) -> Self {
        self % divisor
    }

    fn to_decimal(self) -> String {
        render_decimal(false, self as u128)
    }
}

} // verus!
