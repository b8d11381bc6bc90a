//! The integer types a fraction can be built on.
//!
//! [`Integral`] says of a machine integer type which mathematical integer
//! each of its values stands for, between which bounds, and what its
//! operations compute. [`crate::unsigned`] and [`crate::signed`] implement it
//! for the twelve integer types of the language.

use crate::decimal::decimal_text;
use vstd::arithmetic::div_mod::{
    lemma_fundamental_div_mod, lemma_mod_bound, lemma_mod_multiples_vanish, lemma_small_mod,
};
use vstd::prelude::*;

verus! {

/// `x` brought between `lo` and `hi` by adding or taking away a multiple of
/// the number of integers from `lo` to `hi`.
pub open spec fn wrap_between(x: int, lo: int, hi: int) -> int
    recommends
        lo <= hi,
{
    lo + (x - lo) % (hi - lo + 1)
}

/// `x` as the type `T` holds it after an operation that wraps.
pub open spec fn wrapped<T: Integral>(x: int) -> int {
    wrap_between(x, T::lowest(), T::highest())
}

/// The quotient of `a` by `b`, rounded toward zero.
pub open spec fn truncated_quotient(a: int, b: int) -> int
    recommends
        b != 0,
{
    if a >= 0 {
        a / b
    } else {
        -((-a) / b)
    }
}

/// What is left of `a` after taking away `b` times the quotient rounded
/// toward zero. It is zero or has the sign of `a`.
pub open spec fn truncated_remainder(a: int, b: int) -> int
    recommends
        b != 0,
{
    if a >= 0 {
        a % b
    } else {
        -((-a) % b)
    }
}

/// A machine integer type: its values stand for the integers of a range
/// around zero, one value for each, and it computes on them as the
/// contracts below say.
pub trait Integral: Copy {
    /// The integer that a value stands for.
    spec fn value(self) -> int;

    /// The least integer that the type holds.
    spec fn lowest() -> int;

    /// The greatest integer that the type holds.
    spec fn highest() -> int;

    /// Zero and one lie in the range of the type.
    proof fn lemma_range()
        ensures
            Self::lowest() <= 0,
            1 <= Self::highest(),
    ;

    /// Every value stands for an integer in the range of the type.
    proof fn lemma_value_in_range(x: Self)
        ensures
            Self::lowest() <= x.value() <= Self::highest(),
    ;

    /// Two values that stand for the same integer are the same value.
    proof fn lemma_value_injective(x: Self, y: Self)
        requires
            x.value() == y.value(),
        ensures
            x == y,
    ;

    /// The value that stands for zero.
    fn zero() -> (z: Self)
        ensures
            z.value() == 0,
    ;

    /// Whether two values stand for the same integer.
    fn equals(self, other: Self) -> (b: bool)
        ensures
            b == (self.value() == other.value()),
    ;

    /// Whether `self` stands for a smaller integer than `other`.
    fn less_than(self, other: Self) -> (b: bool)
        ensures
            b == (self.value() < other.value()),
    ;

    /// The sum, wrapped into the range of the type.
    fn wrapping_add(self, other: Self) -> (r: Self)
        ensures
            r.value() == wrap_between(
                self.value() + other.value(),
                Self::lowest(),
                Self::highest(),
            ),
    ;

    /// The difference, wrapped into the range of the type.
    fn wrapping_sub(self, other: Self) -> (r: Self)
        ensures
            r.value() == wrap_between(
                self.value() - other.value(),
                Self::lowest(),
                Self::highest(),
            ),
    ;

    /// The product, wrapped into the range of the type.
    fn wrapping_mul(self, other: Self) -> (r: Self)
        ensures
            r.value() == wrap_between(
                self.value() * other.value(),
                Self::lowest(),
                Self::highest(),
            ),
    ;

    /// The quotient rounded toward zero, where the divisor is not zero and
    /// the type holds the quotient.
    fn quotient(self, divisor: Self) -> (q: Self)
        requires
            divisor.value() != 0,
            truncated_quotient(self.value(), divisor.value()) <= Self::highest(),
        ensures
            q.value() == truncated_quotient(self.value(), divisor.value()),
    ;

    /// The remainder of the division rounded toward zero, where the divisor
    /// is not zero and the type holds the quotient.
    fn remainder(self, divisor: Self) -> (r: Self)
        requires
            divisor.value() != 0,
            truncated_quotient(self.value(), divisor.value()) <= Self::highest(),
        ensures
            r.value() == truncated_remainder(self.value(), divisor.value()),
    ;

    /// The decimal text of the value.
    fn to_decimal(self) -> (s: String)
        ensures
            s@ == decimal_text(self.value()),
    ;
}

/// Wrapping leaves an integer of the range as it is.
pub proof fn lemma_wrap_within(x: int, lo: int, hi: int)
    requires
        lo <= x <= hi,
    ensures
        wrap_between(x, lo, hi) == x,
{
    lemma_small_mod((x - lo) as nat, (hi - lo + 1) as nat);
}

/// Wrapping brings every integer into the range, and moves it by a multiple
/// of the size of the range.
pub proof fn lemma_wrap_congruent(x: int, lo: int, hi: int)
    requires
        lo <= hi,
    ensures
        lo <= wrap_between(x, lo, hi) <= hi,
        wrap_between(x, lo, hi) == x - (hi - lo + 1) * ((x - lo) / (hi - lo + 1)),
{
    let size = hi - lo + 1;
    lemma_mod_bound(x - lo, size);
    lemma_fundamental_div_mod(x - lo, size);
}

/// Two integers that differ by a multiple of the size of the range wrap to
/// the same integer.
pub proof fn lemma_wrap_shift(x: int, k: int, lo: int, hi: int)
    requires
        lo <= hi,
    ensures
        wrap_between(x + (hi - lo + 1) * k, lo, hi) == wrap_between(x, lo, hi),
{
    let size = hi - lo + 1;
    lemma_mod_multiples_vanish(k, x - lo, size);
    assert(x + size * k - lo == size * k + (x - lo));
}

/// An integer of the range that differs from `x` by a multiple of the size of
/// the range is what `x` wraps to.
pub proof fn lemma_wrap_unique(x: int, w: int, k: int, lo: int, hi: int)
    requires
        lo <= w <= hi,
        w == x + (hi - lo + 1) * k,
    ensures
        wrap_between(x, lo, hi) == w,
{
    lemma_wrap_shift(x, k, lo, hi);
    lemma_wrap_within(w, lo, hi);
}

/// The quotient rounded toward zero is no further from zero than the
/// dividend, and has the sign that the signs of dividend and divisor give.
pub proof fn lemma_truncated_quotient_bounds(a: int, b: int)
    requires
        b != 0,
    ensures
        0 <= a && 0 < b ==> 0 <= truncated_quotient(a, b) <= a,
        0 <= a && b < 0 ==> -a <= truncated_quotient(a, b) <= 0,
        a < 0 && 0 < b ==> a <= truncated_quotient(a, b) <= 0,
        a < 0 && b < 0 ==> 0 <= truncated_quotient(a, b) <= -a,
{
    let m = if a >= 0 { a } else { -a };
    lemma_fundamental_div_mod(m, b);
    let q = m / b;
    let r = m % b;
    assert(0 <= r && (0 < b ==> r < b) && (b < 0 ==> r < -b)) by {
        if b > 0 {
            lemma_mod_bound(m, b);
        } else {
            lemma_euclidean_remainder_negative_divisor(m, b);
        }
    }
    assert((0 < b ==> 0 <= q <= m) && (b < 0 ==> -m <= q <= 0)) by (nonlinear_arith)
        requires
            0 <= m,
            b != 0,
            m == b * q + r,
            0 <= r,
            0 < b ==> r < b,
            b < 0 ==> r < -b,
    ;
}

/// Dividing by minus one gives the opposite.
pub proof fn lemma_truncated_quotient_by_minus_one(a: int)
    ensures
        truncated_quotient(a, -1) == -a,
{
    let m = if a >= 0 { a } else { -a };
    assert(m == (-m) * (-1) + 0) by (nonlinear_arith);
    lemma_euclidean_division_unique(m, -1, -m, 0);
}

/// The remainder of the division rounded toward zero is nearer to zero than
/// the divisor, and is zero or has the sign of the dividend.
pub proof fn lemma_truncated_remainder_bounds(a: int, b: int)
    requires
        b != 0,
    ensures
        0 <= a && 0 < b ==> 0 <= truncated_remainder(a, b) < b,
        0 <= a && b < 0 ==> 0 <= truncated_remainder(a, b) < -b,
        a < 0 && 0 < b ==> -b < truncated_remainder(a, b) <= 0,
        a < 0 && b < 0 ==> b < truncated_remainder(a, b) <= 0,
{
    let m = if a >= 0 { a } else { -a };
    if b > 0 {
        lemma_mod_bound(m, b);
    } else {
        lemma_euclidean_remainder_negative_divisor(m, b);
    }
}

/// A wrapped product in a range that starts at zero is the product's
/// remainder by the size of the range.
pub proof fn lemma_wrap_from_zero(p: int, size: int)
    requires
        0 < size,
    ensures
        wrap_between(p, 0, size - 1) == p % size,
{
}

/// A wrapped product in a range of `2 * half` integers with zero in the
/// middle is the product's remainder by the size of the range, less that
/// size where the remainder lies above the range.
pub proof fn lemma_wrap_around_zero(p: int, half: int)
    requires
        0 < half,
    ensures
        wrap_between(p, -half, half - 1) == if p % (2 * half) > half - 1 {
            p % (2 * half) - 2 * half
        } else {
            p % (2 * half)
        },
{
    let size = 2 * half;
    let m = p % size;
    lemma_mod_bound(p, size);
    lemma_fundamental_div_mod(p, size);
    if m > half - 1 {
        assert(m - size == p + size * (-(p / size) - 1)) by (nonlinear_arith)
            requires
                p == size * (p / size) + m,
        ;
        lemma_wrap_unique(p, m - size, -(p / size) - 1, -half, half - 1);
    } else {
        assert(m == p + size * (-(p / size))) by (nonlinear_arith)
            requires
                p == size * (p / size) + m,
        ;
        lemma_wrap_unique(p, m, -(p / size), -half, half - 1);
    }
}

/// The Euclidean remainder by a negative divisor lies below the divisor's
/// magnitude.
pub proof fn lemma_euclidean_remainder_negative_divisor(x: int, d: int)
    requires
        d < 0,
    ensures
        0 <= x % d < -d,
        x % d == x % (-d),
        x / d == -(x / (-d)),
{
    lemma_fundamental_div_mod(x, -d);
    lemma_mod_bound(x, -d);
    let q = x / (-d);
    let r = x % (-d);
    assert(x == (-q) * d + r) by (nonlinear_arith)
        requires
            x == (-d) * q + r,
    ;
    lemma_euclidean_division_unique(x, d, -q, r);
}

/// Quotient and remainder of the Euclidean division are the one pair with
/// `x == q * d + r` and `0 <= r < |d|`.
pub proof fn lemma_euclidean_division_unique(x: int, d: int, q: int, r: int)
    requires
        d != 0,
        x == q * d + r,
        0 <= r,
        r < d || r < -d,
    ensures
        x / d == q,
        x % d == r,
{
    if d > 0 {
        vstd::arithmetic::div_mod::lemma_fundamental_div_mod_converse(x, d, q, r);
    } else {
        lemma_fundamental_div_mod(x, d);
        let q2 = x / d;
        let r2 = x % d;
        assert(0 <= r2 < -d) by (nonlinear_arith)
            requires
                d < 0,
                r2 == x % d,
        ;
        assert(q2 == q && r2 == r) by (nonlinear_arith)
            requires
                d < 0,
                x == q * d + r,
                x == d * q2 + r2,
                0 <= r < -d,
                0 <= r2 < -d,
        ;
    }
}

/// Wrapping a sum of wrapped integers is wrapping the sum.
pub proof fn lemma_wrap_sum(x: int, y: int, lo: int, hi: int)
    requires
        lo <= hi,
    ensures
        wrap_between(wrap_between(x, lo, hi) + wrap_between(y, lo, hi), lo, hi) == wrap_between(
            x + y,
            lo,
            hi,
        ),
{
    let size = hi - lo + 1;
    let kx = (x - lo) / size;
    let ky = (y - lo) / size;
    lemma_wrap_congruent(x, lo, hi);
    lemma_wrap_congruent(y, lo, hi);
    lemma_wrap_shift(x + y, -(kx + ky), lo, hi);
    assert(x + y + size * (-(kx + ky)) == (x - size * kx) + (y - size * ky)) by (nonlinear_arith);
}

/// Wrapping a difference of wrapped integers is wrapping the difference.
pub proof fn lemma_wrap_difference(x: int, y: int, lo: int, hi: int)
    requires
        lo <= hi,
    ensures
        wrap_between(wrap_between(x, lo, hi) - wrap_between(y, lo, hi), lo, hi) == wrap_between(
            x - y,
            lo,
            hi,
        ),
{
    let size = hi - lo + 1;
    let kx = (x - lo) / size;
    let ky = (y - lo) / size;
    lemma_wrap_congruent(x, lo, hi);
    lemma_wrap_congruent(y, lo, hi);
    lemma_wrap_shift(x - y, ky - kx, lo, hi);
    assert(x - y + size * (ky - kx) == (x - size * kx) - (y - size * ky)) by (nonlinear_arith);
}

} // verus!
