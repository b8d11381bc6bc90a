//! Divisibility and the greatest common divisor of non-negative integers.

use vstd::arithmetic::div_mod::{
    lemma_fundamental_div_mod, lemma_mod_multiples_basic, lemma_truncate_middle,
};
use vstd::prelude::*;

verus! {

/// `d` divides `n`. Zero divides only zero.
pub open spec fn divides(d: int, n: int) -> bool {
    if d == 0 {
        n == 0
    } else {
        n % d == 0
    }
}

/// The greatest common divisor of two non-negative integers, by Euclid's
/// descent: `gcd(a, 0)` is `a`, and `gcd(a, b)` is `gcd(b, a % b)`.
/// `gcd(0, 0)` is 0.
pub open spec fn gcd(a: int, b: int) -> int
    recommends
        0 <= a,
        0 <= b,
    decreases b,
{
    if b <= 0 {
        a
    } else {
        gcd(b, a % b)
    }
}

/// `g` is the greatest common divisor of `a` and `b`: it is not negative, it
/// divides both, and every positive divisor of both divides it.
pub open spec fn is_gcd(g: int, a: int, b: int) -> bool {
    &&& 0 <= g
    &&& divides(g, a)
    &&& divides(g, b)
    &&& forall|c: int| 0 < c && divides(c, a) && divides(c, b) ==> #[trigger] divides(c, g)
}

/// A multiple of `d` is divided by `d`.
pub proof fn lemma_divides_multiple(d: int, k: int)
    ensures
        divides(d, d * k),
        divides(d, k * d),
{
    if d == 0 {
        assert(d * k == 0 && k * d == 0) by (nonlinear_arith)
            requires
                d == 0,
        ;
    } else if d > 0 {
        lemma_mod_multiples_basic(k, d);
        assert(d * k == k * d) by (nonlinear_arith);
    } else {
        lemma_mod_multiples_basic(-k, -d);
        assert((-k) * (-d) == k * d && d * k == k * d) by (nonlinear_arith);
        lemma_fundamental_div_mod(k * d, d);
        lemma_fundamental_div_mod(k * d, -d);
        assert((k * d) % d == 0) by (nonlinear_arith)
            requires
                d < 0,
                (k * d) % (-d) == 0,
                k * d == (-d) * ((k * d) / (-d)) + (k * d) % (-d),
                k * d == d * ((k * d) / d) + (k * d) % d,
                0 <= (k * d) % d < -d,
        ;
    }
}

/// What `d` divides is `d` times the quotient.
pub proof fn lemma_divides_quotient(d: int, n: int)
    requires
        d != 0,
        divides(d, n),
    ensures
        n == d * (n / d),
{
    lemma_fundamental_div_mod(n, d);
}

/// What divides two integers divides every sum of a multiple of the first
/// and the second.
pub proof fn lemma_divides_combination(d: int, x: int, k: int, y: int)
    requires
        divides(d, x),
        divides(d, y),
    ensures
        divides(d, x * k + y),
{
    if d == 0 {
        assert(x * k + y == 0) by (nonlinear_arith)
            requires
                x == 0,
                y == 0,
        ;
    } else {
        lemma_divides_quotient(d, x);
        lemma_divides_quotient(d, y);
        let q = (x / d) * k + y / d;
        assert(x * k + y == d * q) by (nonlinear_arith)
            requires
                x == d * (x / d),
                y == d * (y / d),
                q == (x / d) * k + y / d,
        ;
        lemma_divides_multiple(d, q);
    }
}

/// A positive integer that divides a positive integer is at most that integer.
pub proof fn lemma_divisor_bound(d: int, n: int)
    requires
        0 < d,
        0 < n,
        divides(d, n),
    ensures
        d <= n,
{
    lemma_divides_quotient(d, n);
    assert(d <= n) by (nonlinear_arith)
        requires
            0 < d,
            0 < n,
            n == d * (n / d),
    ;
}

/// The greatest common divisor of non-negative integers is not negative, and
/// it is positive unless both are zero.
pub proof fn lemma_gcd_sign(a: int, b: int)
    requires
        0 <= a,
        0 <= b,
    ensures
        0 <= gcd(a, b),
        0 < a || 0 < b ==> 0 < gcd(a, b),
    decreases b,
{
    if b > 0 {
        lemma_gcd_sign(b, a % b);
    }
}

/// The greatest common divisor divides both of its arguments.
pub proof fn lemma_gcd_divides(a: int, b: int)
    requires
        0 <= a,
        0 <= b,
    ensures
        divides(gcd(a, b), a),
        divides(gcd(a, b), b),
    decreases b,
{
    if b <= 0 {
        lemma_divides_multiple(a, 1);
        lemma_divides_multiple(a, 0);
        assert(a * 1 == a && a * 0 == 0) by (nonlinear_arith);
    } else {
        let g = gcd(b, a % b);
        lemma_gcd_divides(b, a % b);
        lemma_fundamental_div_mod(a, b);
        lemma_divides_combination(g, b, a / b, a % b);
    }
}

/// Every common divisor of two non-negative integers divides their greatest
/// common divisor.
pub proof fn lemma_gcd_greatest(a: int, b: int, c: int)
    requires
        0 <= a,
        0 <= b,
        divides(c, a),
        divides(c, b),
    ensures
        divides(c, gcd(a, b)),
    decreases b,
{
    if b > 0 {
        lemma_fundamental_div_mod(a, b);
        lemma_divides_combination(c, b, -(a / b), a);
        assert(b * (-(a / b)) + a == a % b) by (nonlinear_arith)
            requires
                a == b * (a / b) + a % b,
        ;
        lemma_gcd_greatest(b, a % b, c);
    }
}

/// `gcd` is the greatest common divisor.
pub proof fn lemma_gcd_is_gcd(a: int, b: int)
    requires
        0 <= a,
        0 <= b,
    ensures
        is_gcd(gcd(a, b), a, b),
{
    lemma_gcd_sign(a, b);
    lemma_gcd_divides(a, b);
    assert forall|c: int| 0 < c && divides(c, a) && divides(c, b) implies #[trigger] divides(
        c,
        gcd(a, b),
    ) by {
        lemma_gcd_greatest(a, b, c);
    }
}

/// Two non-negative integers have one greatest common divisor.
pub proof fn lemma_gcd_unique(g: int, h: int, a: int, b: int)
    requires
        0 <= a,
        0 <= b,
        is_gcd(g, a, b),
        is_gcd(h, a, b),
    ensures
        g == h,
{
    if a == 0 && b == 0 {
        assert(divides(g + 1, g));
        assert(divides(h + 1, h));
        vstd::arithmetic::div_mod::lemma_small_mod(g as nat, (g + 1) as nat);
        vstd::arithmetic::div_mod::lemma_small_mod(h as nat, (h + 1) as nat);
    } else {
        assert(g != 0 && h != 0);
        assert(divides(g, h));
        assert(divides(h, g));
        lemma_divisor_bound(g, h);
        lemma_divisor_bound(h, g);
    }
}

/// Scaling both arguments by a positive factor scales the greatest common
/// divisor by it.
pub proof fn lemma_gcd_scales(k: int, a: int, b: int)
    requires
        0 < k,
        0 <= a,
        0 <= b,
    ensures
        gcd(k * a, k * b) == k * gcd(a, b),
    decreases b,
{
    if b > 0 {
        lemma_truncate_middle(a, k, b);
        lemma_gcd_scales(k, b, a % b);
    } else {
        assert(k * b <= 0) by (nonlinear_arith)
            requires
                0 < k,
                b <= 0,
        ;
    }
}

/// The greatest common divisor of a non-negative integer and itself is that
/// integer, and so is its greatest common divisor with zero, on either side.
pub proof fn lemma_gcd_self_and_zero(a: int)
    requires
        0 <= a,
    ensures
        gcd(a, a) == a,
        gcd(a, 0) == a,
        gcd(0, a) == a,
{
    if a > 0 {
        vstd::arithmetic::div_mod::lemma_mod_self_0(a);
        assert(gcd(a, a) == gcd(a, a % a));
        assert(0int % a == 0) by {
            vstd::arithmetic::div_mod::lemma_small_mod(0, a as nat);
        }
        assert(gcd(0, a) == gcd(a, 0int % a));
    }
}

} // verus!
