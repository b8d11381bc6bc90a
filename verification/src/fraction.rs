//! A fraction in lowest terms over a machine integer type.

use crate::divisibility::{gcd, is_gcd, lemma_gcd_is_gcd};
use crate::integral::{
    lemma_truncated_quotient_bounds, lemma_wrap_difference, lemma_wrap_sum, Integral,
};
use crate::ratio::{
    lemma_reduced_in_lowest_terms, lemma_reduced_times_gcd, lemma_reduced_zero, reduced, Ratio,
};
use vstd::arithmetic::div_mod::lemma_small_mod;
use vstd::prelude::*;
use vstd::string::*;

verus! {

/// A numerator over a denominator of the integer type `T`, in lowest terms:
/// the numerator is not negative, the denominator is positive, and their
/// greatest common divisor is one. Zero is zero over one.
///
/// Negative numerators and denominators are outside the domain of this
/// type. Euclid's descent, run on the values as they are with a remainder
/// that rounds toward zero, does not come to an end on a negative value, so
/// the constructor takes none and no operation hands one to it.
///
/// A fraction is never changed once it is made: every operation returns a
/// new one.
#[derive(Debug)]
pub struct Fraction<T: Integral> {
    numerator: T,
    denominator: T,
}

impl<T: Integral> View for Fraction<T> {
    type V = Ratio;

    closed spec fn view(&self) -> Ratio {
        Ratio { num: self.numerator.value(), den: self.denominator.value() }
    }
}

impl<T: Integral> Fraction<T> {
    #[verifier::type_invariant]
    spec fn lowest_terms(self) -> bool {
        self@.in_lowest_terms()
    }

    /// Two fractions with the same numerator and the same denominator are the
    /// same fraction.
    pub proof fn lemma_view_injective(self, other: Self)
        requires
            self@ == other@,
        ensures
            self == other,
    {
        T::lemma_value_injective(self.numerator, other.numerator);
        T::lemma_value_injective(self.denominator, other.denominator);
    }

    /// The fraction `numerator / denominator` in lowest terms: both are
    /// divided by their greatest common divisor. A zero numerator gives zero
    /// over one.
    ///
    /// The denominator must be positive and the numerator must not be
    /// negative.
    pub fn new(numerator: T, denominator: T) -> (f: Self)
        requires
            0 <= numerator.value(),
            0 < denominator.value(),
        ensures
            f@ == reduced(numerator.value(), denominator.value()),
            f@.in_lowest_terms(),
            numerator.value() == 0 ==> f@ == (Ratio { num: 0, den: 1 }),
    {
        let g = Self::greatest_common_divisor(numerator, denominator);
        proof {
            let n = numerator.value();
            let d = denominator.value();
            lemma_reduced_times_gcd(n, d);
            lemma_reduced_in_lowest_terms(n, d);
            if n == 0 {
                lemma_reduced_zero(d);
            }
            lemma_truncated_quotient_bounds(n, g.value());
            lemma_truncated_quotient_bounds(d, g.value());
            T::lemma_value_in_range(numerator);
            T::lemma_value_in_range(denominator);
        }
        Fraction { numerator: numerator.quotient(g), denominator: denominator.quotient(g) }
    }

    /// The numerator of the fraction in lowest terms.
    pub fn numerator(&self) -> (n: T)
        ensures
            n.value() == self@.num,
            self@.in_lowest_terms(),
    {
        proof {
            use_type_invariant(self);
        }
        self.numerator
    }

    /// The denominator of the fraction in lowest terms.
    pub fn denominator(&self) -> (d: T)
        ensures
            d.value() == self@.den,
            self@.in_lowest_terms(),
    {
        proof {
            use_type_invariant(self);
        }
        self.denominator
    }

    /// The text of the fraction: the numerator in decimal, a slash, the
    /// denominator in decimal.
    pub fn to_string(&self) -> (s: String)
        ensures
            s@ == self@.text(),
    {
        let mut s = self.numerator.to_decimal();
        s.append("/");
        let d = self.denominator.to_decimal();
        s.append(d.as_str());
        proof {
            reveal_strlit("/");
            assert(s@ =~= self@.text());
        }
        s
    }

    /// The product of two fractions, in lowest terms. Numerator and
    /// denominator are multiplied in `T` and wrap as `T` wraps.
    ///
    /// What the multiplications give must be a pair that can be reduced: a
    /// numerator that is not negative over a positive denominator.
    pub fn multiply(&self, other: &Fraction<T>) -> (f: Fraction<T>)
        requires
            self@.product(other@).wrapped::<T>().reducible(),
        ensures
            f@ == self@.product(other@).wrapped::<T>().reduce(),
            f@.in_lowest_terms(),
    {
        Fraction::new(
            self.numerator.wrapping_mul(other.numerator),
            self.denominator.wrapping_mul(other.denominator),
        )
    }

    /// The quotient of two fractions, in lowest terms. The numerator of each
    /// is multiplied by the denominator of the other in `T`, wrapping as `T`
    /// wraps.
    ///
    /// What the multiplications give must be a pair that can be reduced: a
    /// numerator that is not negative over a positive denominator. A zero
    /// divisor gives a zero denominator and is left out by that.
    pub fn divide(&self, other: &Fraction<T>) -> (f: Fraction<T>)
        requires
            self@.quotient(other@).wrapped::<T>().reducible(),
        ensures
            f@ == self@.quotient(other@).wrapped::<T>().reduce(),
            f@.in_lowest_terms(),
    {
        Fraction::new(
            self.numerator.wrapping_mul(other.denominator),
            self.denominator.wrapping_mul(other.numerator),
        )
    }

    /// The sum of two fractions, in lowest terms. The cross products, their
    /// sum and the product of the denominators are computed in `T` and wrap
    /// as `T` wraps.
    ///
    /// What they give must be a pair that can be reduced: a numerator that
    /// is not negative over a positive denominator.
    pub fn add(&self, other: &Fraction<T>) -> (f: Fraction<T>)
        requires
            self@.sum(other@).wrapped::<T>().reducible(),
        ensures
            f@ == self@.sum(other@).wrapped::<T>().reduce(),
            f@.in_lowest_terms(),
    {
        proof {
            T::lemma_range();
            lemma_wrap_sum(
                self@.num * other@.den,
                other@.num * self@.den,
                T::lowest(),
                T::highest(),
            );
        }
        Fraction::new(
            self.numerator.wrapping_mul(other.denominator).wrapping_add(
                other.numerator.wrapping_mul(self.denominator),
            ),
            self.denominator.wrapping_mul(other.denominator),
        )
    }

    /// The difference of two fractions, in lowest terms. The cross products,
    /// their difference and the product of the denominators are computed in
    /// `T` and wrap as `T` wraps.
    ///
    /// What they give must be a pair that can be reduced: a numerator that
    /// is not negative over a positive denominator.
    pub fn subtract(&self, other: &Fraction<T>) -> (f: Fraction<T>)
        requires
            self@.difference(other@).wrapped::<T>().reducible(),
        ensures
            f@ == self@.difference(other@).wrapped::<T>().reduce(),
            f@.in_lowest_terms(),
    {
        proof {
            T::lemma_range();
            lemma_wrap_difference(
                self@.num * other@.den,
                other@.num * self@.den,
                T::lowest(),
                T::highest(),
            );
        }
        Fraction::new(
            self.numerator.wrapping_mul(other.denominator).wrapping_sub(
                other.numerator.wrapping_mul(self.denominator),
            ),
            self.denominator.wrapping_mul(other.denominator),
        )
    }

    /// The greatest common divisor of two values that are not negative, by
    /// Euclid's descent: the greater value comes first, a zero second value
    /// ends the descent, and each step replaces the pair by the second value
    /// and the remainder of the first by the second.
    pub fn greatest_common_divisor(a: T, b: T) -> (g: T)
        requires
            0 <= a.value(),
            0 <= b.value(),
        ensures
            g.value() == gcd(a.value(), b.value()),
            is_gcd(g.value(), a.value(), b.value()),
        decreases b.value(),
    {
        proof {
            lemma_gcd_is_gcd(a.value(), b.value());
        }
        if a.less_than(b) {
            proof {
                lemma_small_mod(a.value() as nat, b.value() as nat);
            }
            return Self::greatest_common_divisor(b, a);
        }
        if b.equals(T::zero()) {
            a
        } else {
            proof {
                lemma_truncated_quotient_bounds(a.value(), b.value());
                T::lemma_value_in_range(a);
            }
            Self::greatest_common_divisor(b, a.remainder(b))
        }
    }
}

} // verus!
