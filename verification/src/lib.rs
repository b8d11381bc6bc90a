//! Fractions in lowest terms over the machine integer types.
//!
//! A [`Fraction`] keeps a numerator and a denominator of one integer type,
//! divided by their greatest common divisor when it is made. The four
//! arithmetic operations compute in that type, wrapping as the type wraps,
//! and reduce what they computed.
//!
//! Every executable function is verified against a contract over
//! mathematical integers:
//!
//! - [`divisibility`] holds the number theory: what it is to divide, the
//!   greatest common divisor and what holds of it;
//! - [`integral`] says what a machine integer type is, and [`unsigned`] and
//!   [`signed`] show it of the twelve integer types of the language;
//! - [`decimal`] is the decimal text of an integer;
//! - [`ratio`] is the mathematical model of a fraction, a pair of integers,
//!   and what it is to reduce one;
//! - [`fraction`] is the type itself;
//! - [`laws`] states what holds of construction and of the operations in
//!   every integer type.

pub mod decimal;
pub mod divisibility;
pub mod fraction;
pub mod integral;
pub mod laws;
pub mod ratio;
pub mod signed;
pub mod unsigned;

pub use fraction::Fraction;
pub use integral::Integral;
pub use ratio::Ratio;
