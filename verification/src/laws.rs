//! What holds of the construction of a fraction and of its operations,
//! whatever the integer type.

use crate::decimal::{digit_char, digits};
use crate::fraction::Fraction;
use crate::integral::{lemma_wrap_within, Integral};
use crate::ratio::{
    lemma_reduced_equal_parts, lemma_reduced_idempotent, lemma_reduced_in_lowest_terms,
    lemma_reduced_same_value, lemma_reduced_zero, lemma_same_value_same_reduced, reduced, Ratio,
};
use vstd::prelude::*;

verus! {

/// Whatever can be made into a fraction is made into one in lowest terms
/// that stands for the same rational number, and a zero numerator is made
/// into zero over one.
pub proof fn lemma_new_lowest_terms<T: Integral>(numerator: T, denominator: T)
    requires
        0 <= numerator.value(),
        0 < denominator.value(),
    ensures
        reduced(numerator.value(), denominator.value()).in_lowest_terms(),
        reduced(numerator.value(), denominator.value()).same_value(
            Ratio { num: numerator.value(), den: denominator.value() },
        ),
        numerator.value() == 0 ==> reduced(numerator.value(), denominator.value()) == (Ratio {
            num: 0,
            den: 1,
        }),
{
    lemma_reduced_in_lowest_terms(numerator.value(), denominator.value());
    lemma_reduced_same_value(numerator.value(), denominator.value());
    if numerator.value() == 0 {
        lemma_reduced_zero(denominator.value());
    }
}

/// A fraction made from the numerator and the denominator of a fraction is
/// that fraction.
pub proof fn lemma_new_idempotent<T: Integral>(f: Fraction<T>)
    requires
        f@.in_lowest_terms(),
    ensures
        reduced(f@.num, f@.den) == f@,
{
    lemma_reduced_idempotent(f@);
}

/// Numerators and denominators in the same proportion are made into the
/// same fraction, in one integer type or in two.
pub proof fn lemma_new_proportional<T: Integral, U: Integral>(
    numerator: T,
    denominator: T,
    other_numerator: U,
    other_denominator: U,
)
    requires
        0 <= numerator.value(),
        0 < denominator.value(),
        0 <= other_numerator.value(),
        0 < other_denominator.value(),
        numerator.value() * other_denominator.value() == other_numerator.value()
            * denominator.value(),
    ensures
        reduced(numerator.value(), denominator.value()) == reduced(
            other_numerator.value(),
            other_denominator.value(),
        ),
{
    lemma_same_value_same_reduced(
        Ratio { num: numerator.value(), den: denominator.value() },
        Ratio { num: other_numerator.value(), den: other_denominator.value() },
    );
}

/// An operation whose numerator and denominator the type holds does not
/// wrap: it reduces the numerator and the denominator that the formula
/// gives.
pub proof fn lemma_exact_where_it_fits<T: Integral>(r: Ratio)
    requires
        r.fits::<T>(),
    ensures
        r.wrapped::<T>() == r,
{
    lemma_wrap_within(r.num, T::lowest(), T::highest());
    lemma_wrap_within(r.den, T::lowest(), T::highest());
}

/// What the formulas give for two fractions can be reduced: the product and
/// the sum always, the quotient where the divisor is not zero, the
/// difference where the first fraction is not less than the second.
pub proof fn lemma_operations_reducible<T: Integral>(a: Fraction<T>, b: Fraction<T>)
    requires
        a@.in_lowest_terms(),
        b@.in_lowest_terms(),
    ensures
        a@.product(b@).reducible(),
        a@.sum(b@).reducible(),
        0 < b@.num ==> a@.quotient(b@).reducible(),
        b@.num * a@.den <= a@.num * b@.den ==> a@.difference(b@).reducible(),
{
    let (an, ad, bn, bd) = (a@.num, a@.den, b@.num, b@.den);
    assert(0 <= an * bn && 0 < ad * bd && 0 <= an * bd && 0 <= bn * ad && (0 < bn ==> 0 < ad
        * bn)) by (nonlinear_arith)
        requires
            0 <= an,
            0 < ad,
            0 <= bn,
            0 < bd,
    ;
}

/// Each of the four operations gives the same fraction in two integer types
/// on operands that are the same fractions, where both types hold the
/// numerator and the denominator that the operation computes.
pub proof fn lemma_same_in_every_type<T: Integral, U: Integral>(
    a: Fraction<T>,
    b: Fraction<T>,
    c: Fraction<U>,
    d: Fraction<U>,
)
    requires
        a@ == c@,
        b@ == d@,
    ensures
        a@.product(b@).fits::<T>() && a@.product(b@).fits::<U>() ==> a@.product(b@).wrapped::<
            T,
        >().reduce() == c@.product(d@).wrapped::<U>().reduce(),
        a@.quotient(b@).fits::<T>() && a@.quotient(b@).fits::<U>() ==> a@.quotient(b@).wrapped::<
            T,
        >().reduce() == c@.quotient(d@).wrapped::<U>().reduce(),
        a@.sum(b@).fits::<T>() && a@.sum(b@).fits::<U>() ==> a@.sum(b@).wrapped::<T>().reduce()
            == c@.sum(d@).wrapped::<U>().reduce(),
        a@.difference(b@).fits::<T>() && a@.difference(b@).fits::<U>() ==> a@.difference(
            b@,
        ).wrapped::<T>().reduce() == c@.difference(d@).wrapped::<U>().reduce(),
{
    if a@.product(b@).fits::<T>() && a@.product(b@).fits::<U>() {
        lemma_exact_where_it_fits::<T>(a@.product(b@));
        lemma_exact_where_it_fits::<U>(a@.product(b@));
    }
    if a@.quotient(b@).fits::<T>() && a@.quotient(b@).fits::<U>() {
        lemma_exact_where_it_fits::<T>(a@.quotient(b@));
        lemma_exact_where_it_fits::<U>(a@.quotient(b@));
    }
    if a@.sum(b@).fits::<T>() && a@.sum(b@).fits::<U>() {
        lemma_exact_where_it_fits::<T>(a@.sum(b@));
        lemma_exact_where_it_fits::<U>(a@.sum(b@));
    }
    if a@.difference(b@).fits::<T>() && a@.difference(b@).fits::<U>() {
        lemma_exact_where_it_fits::<T>(a@.difference(b@));
        lemma_exact_where_it_fits::<U>(a@.difference(b@));
    }
}

/// A fraction divided by itself is one over one, with the text `1/1`,
/// wherever it can be divided by itself.
pub proof fn lemma_divide_by_itself<T: Integral>(f: Fraction<T>)
    requires
        f@.quotient(f@).wrapped::<T>().reducible(),
    ensures
        f@.quotient(f@).wrapped::<T>().reduce() == (Ratio { num: 1, den: 1 }),
        (Ratio { num: 1, den: 1 }).text() == seq!['1', '/', '1'],
{
    let q = f@.quotient(f@).wrapped::<T>();
    assert(f@.num * f@.den == f@.den * f@.num) by (nonlinear_arith);
    lemma_reduced_equal_parts(q.den);
    assert(digits(1) == seq![digit_char(1)]);
    assert((Ratio { num: 1, den: 1 }).text() =~= seq!['1', '/', '1']);
}

} // verus!
