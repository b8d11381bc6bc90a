//! The mathematical model of a fraction: a pair of integers, and what it is
//! to reduce one.

use crate::decimal::decimal_text;
use crate::divisibility::{
    divides, gcd, is_gcd, lemma_divides_multiple, lemma_divides_quotient, lemma_divisor_bound,
    lemma_gcd_divides, lemma_gcd_greatest, lemma_gcd_is_gcd, lemma_gcd_scales,
    lemma_gcd_self_and_zero, lemma_gcd_sign, lemma_gcd_unique,
};
use crate::integral::{wrapped, Integral};
use vstd::arithmetic::div_mod::lemma_div_multiples_vanish;
use vstd::prelude::*;

verus! {

/// A numerator over a denominator, both mathematical integers.
pub struct Ratio {
    pub num: int,
    pub den: int,
}

/// `num` over `den`, both divided by their greatest common divisor.
pub open spec fn reduced(num: int, den: int) -> Ratio
    recommends
        0 <= num,
        0 < den,
{
    Ratio { num: num / gcd(num, den), den: den / gcd(num, den) }
}

impl Ratio {
    /// The numerator is not negative and the denominator is positive: the
    /// pairs that a fraction can be made from.
    pub open spec fn reducible(self) -> bool {
        0 <= self.num && 0 < self.den
    }

    /// The pair is reducible and its greatest common divisor is one.
    pub open spec fn in_lowest_terms(self) -> bool {
        self.reducible() && gcd(self.num, self.den) == 1
    }

    /// The two pairs stand for the same rational number.
    pub open spec fn same_value(self, other: Ratio) -> bool {
        self.num * other.den == other.num * self.den
    }

    /// The pair in lowest terms.
    pub open spec fn reduce(self) -> Ratio {
        reduced(self.num, self.den)
    }

    /// Numerator and denominator as the type `T` holds them after an
    /// operation that wraps.
    pub open spec fn wrapped<T: Integral>(self) -> Ratio {
        Ratio { num: wrapped::<T>(self.num), den: wrapped::<T>(self.den) }
    }

    /// The type `T` holds both the numerator and the denominator.
    pub open spec fn fits<T: Integral>(self) -> bool {
        &&& T::lowest() <= self.num <= T::highest()
        &&& T::lowest() <= self.den <= T::highest()
    }

    /// Numerator and denominator of the product, not reduced.
    pub open spec fn product(self, other: Ratio) -> Ratio {
        Ratio { num: self.num * other.num, den: self.den * other.den }
    }

    /// Numerator and denominator of the quotient, not reduced.
    pub open spec fn quotient(self, other: Ratio) -> Ratio {
        Ratio { num: self.num * other.den, den: self.den * other.num }
    }

    /// Numerator and denominator of the sum, not reduced.
    pub open spec fn sum(self, other: Ratio) -> Ratio {
        Ratio { num: self.num * other.den + other.num * self.den, den: self.den * other.den }
    }

    /// Numerator and denominator of the difference, not reduced.
    pub open spec fn difference(self, other: Ratio) -> Ratio {
        Ratio { num: self.num * other.den - other.num * self.den, den: self.den * other.den }
    }

    /// The text of the pair: the numerator, a slash, the denominator.
    pub open spec fn text(self) -> Seq<char> {
        decimal_text(self.num) + seq!['/'] + decimal_text(self.den)
    }
}

/// Numerator and denominator are their greatest common divisor times the
/// numerator and the denominator of the reduced pair.
pub proof fn lemma_reduced_times_gcd(num: int, den: int)
    requires
        0 <= num,
        0 < den,
    ensures
        0 < gcd(num, den),
        num == gcd(num, den) * reduced(num, den).num,
        den == gcd(num, den) * reduced(num, den).den,
        reduced(num, den).reducible(),
{
    let g = gcd(num, den);
    lemma_gcd_sign(num, den);
    lemma_gcd_divides(num, den);
    lemma_divides_quotient(g, num);
    lemma_divides_quotient(g, den);
    assert(0 <= num / g && 0 < den / g) by (nonlinear_arith)
        requires
            0 < g,
            0 <= num,
            0 < den,
            num == g * (num / g),
            den == g * (den / g),
    ;
}

/// A reduced pair is in lowest terms.
pub proof fn lemma_reduced_in_lowest_terms(num: int, den: int)
    requires
        0 <= num,
        0 < den,
    ensures
        reduced(num, den).in_lowest_terms(),
{
    let g = gcd(num, den);
    let r = reduced(num, den);
    lemma_reduced_times_gcd(num, den);
    let h = gcd(r.num, r.den);
    lemma_gcd_sign(r.num, r.den);
    lemma_gcd_divides(r.num, r.den);
    lemma_divides_quotient(h, r.num);
    lemma_divides_quotient(h, r.den);
    assert(num == (g * h) * (r.num / h) && den == (g * h) * (r.den / h)) by (nonlinear_arith)
        requires
            num == g * r.num,
            den == g * r.den,
            r.num == h * (r.num / h),
            r.den == h * (r.den / h),
    ;
    lemma_divides_multiple(g * h, r.num / h);
    lemma_divides_multiple(g * h, r.den / h);
    lemma_gcd_greatest(num, den, g * h);
    assert(0 < g * h) by (nonlinear_arith)
        requires
            0 < g,
            0 < h,
    ;
    lemma_divisor_bound(g * h, g);
    assert(h == 1) by (nonlinear_arith)
        requires
            0 < g,
            0 < h,
            g * h <= g,
    ;
}

/// A zero numerator reduces to zero over one.
pub proof fn lemma_reduced_zero(den: int)
    requires
        0 < den,
    ensures
        reduced(0, den) == (Ratio { num: 0, den: 1 }),
{
    lemma_gcd_self_and_zero(den);
    vstd::arithmetic::div_mod::lemma_div_basics(den);
}

/// Reducing keeps the rational number that the pair stands for.
pub proof fn lemma_reduced_same_value(num: int, den: int)
    requires
        0 <= num,
        0 < den,
    ensures
        reduced(num, den).same_value(Ratio { num, den }),
{
    let g = gcd(num, den);
    let r = reduced(num, den);
    lemma_reduced_times_gcd(num, den);
    assert(r.num * den == num * r.den) by (nonlinear_arith)
        requires
            num == g * r.num,
            den == g * r.den,
    ;
}

/// Reducing a pair in lowest terms leaves it as it is.
pub proof fn lemma_reduced_idempotent(r: Ratio)
    requires
        r.in_lowest_terms(),
    ensures
        r.reduce() == r,
{
}

/// The greatest common divisor does not depend on the order of its
/// arguments.
pub proof fn lemma_gcd_symmetric(a: int, b: int)
    requires
        0 <= a,
        0 <= b,
    ensures
        gcd(a, b) == gcd(b, a),
{
    lemma_gcd_is_gcd(a, b);
    lemma_gcd_is_gcd(b, a);
    assert(is_gcd(gcd(b, a), a, b));
    lemma_gcd_unique(gcd(a, b), gcd(b, a), a, b);
}

/// What divides a product and has no divisor in common with one factor
/// divides the other factor.
pub proof fn lemma_coprime_divides_factor(d: int, a: int, b: int)
    requires
        0 < d,
        0 <= a,
        0 <= b,
        gcd(d, a) == 1,
        divides(d, a * b),
    ensures
        divides(d, b),
{
    if b > 0 {
        lemma_gcd_scales(b, d, a);
        lemma_divides_multiple(d, b);
        assert(b * a == a * b && b * d == d * b) by (nonlinear_arith);
        assert(0 <= b * d && 0 <= b * a) by (nonlinear_arith)
            requires
                0 < d,
                0 <= a,
                0 < b,
        ;
        lemma_gcd_greatest(b * d, b * a, d);
    }
}

/// Two pairs in lowest terms that stand for the same rational number are the
/// same pair.
pub proof fn lemma_lowest_terms_unique(r: Ratio, s: Ratio)
    requires
        r.in_lowest_terms(),
        s.in_lowest_terms(),
        r.same_value(s),
    ensures
        r == s,
{
    lemma_gcd_symmetric(r.num, r.den);
    lemma_gcd_symmetric(s.num, s.den);
    // The denominator of each divides the denominator of the other.
    lemma_divides_multiple(r.den, s.num);
    assert(r.num * s.den == r.den * s.num) by (nonlinear_arith)
        requires
            r.num * s.den == s.num * r.den,
    ;
    lemma_coprime_divides_factor(r.den, r.num, s.den);
    lemma_divides_multiple(s.den, r.num);
    assert(s.num * r.den == s.den * r.num) by (nonlinear_arith)
        requires
            r.num * s.den == s.num * r.den,
    ;
    lemma_coprime_divides_factor(s.den, s.num, r.den);
    lemma_divisor_bound(r.den, s.den);
    lemma_divisor_bound(s.den, r.den);
    assert(r.num == s.num) by (nonlinear_arith)
        requires
            r.num * s.den == s.num * r.den,
            r.den == s.den,
            0 < r.den,
    ;
}

/// Two reducible pairs that stand for the same rational number reduce to the
/// same pair.
pub proof fn lemma_same_value_same_reduced(r: Ratio, s: Ratio)
    requires
        r.reducible(),
        s.reducible(),
        r.same_value(s),
    ensures
        r.reduce() == s.reduce(),
{
    let gr = gcd(r.num, r.den);
    let gs = gcd(s.num, s.den);
    let rr = r.reduce();
    let sr = s.reduce();
    lemma_reduced_times_gcd(r.num, r.den);
    lemma_reduced_times_gcd(s.num, s.den);
    lemma_reduced_in_lowest_terms(r.num, r.den);
    lemma_reduced_in_lowest_terms(s.num, s.den);
    assert(rr.num * sr.den == sr.num * rr.den) by (nonlinear_arith)
        requires
            0 < gr,
            0 < gs,
            r.num == gr * rr.num,
            r.den == gr * rr.den,
            s.num == gs * sr.num,
            s.den == gs * sr.den,
            r.num * s.den == s.num * r.den,
    ;
    lemma_lowest_terms_unique(rr, sr);
}

/// A positive integer over itself reduces to one over one.
pub proof fn lemma_reduced_equal_parts(n: int)
    requires
        0 < n,
    ensures
        reduced(n, n) == (Ratio { num: 1, den: 1 }),
{
    lemma_gcd_self_and_zero(n);
    lemma_div_multiples_vanish(1, n);
    assert(n * 1 == n) by (nonlinear_arith);
}

} // verus!
