//! The decimal text of an integer.

use vstd::prelude::*;
use vstd::string::*;

verus! {

/// The character of a decimal digit.
pub open spec fn digit_char(d: int) -> char
    recommends
        0 <= d < 10,
{
    if d == 0 {
        '0'
    } else if d == 1 {
        '1'
    } else if d == 2 {
        '2'
    } else if d == 3 {
        '3'
    } else if d == 4 {
        '4'
    } else if d == 5 {
        '5'
    } else if d == 6 {
        '6'
    } else if d == 7 {
        '7'
    } else if d == 8 {
        '8'
    } else {
        '9'
    }
}

/// The decimal digits of a non-negative integer, most significant first,
/// with no leading zero: zero is the single digit `0`.
pub open spec fn digits(n: int) -> Seq<char>
    recommends
        0 <= n,
    decreases n,
{
    if n < 10 {
        seq![digit_char(n)]
    } else {
        digits(n / 10).push(digit_char(n % 10))
    }
}

/// The decimal text of an integer: its digits, after a minus sign if it is
/// negative.
pub open spec fn decimal_text(v: int) -> Seq<char> {
    if v < 0 {
        seq!['-'] + digits(-v)
    } else {
        digits(v)
    }
}

/// One decimal digit as text.
fn digit_text(d: u8) -> (s: &'static str)
    requires
        d < 10,
    ensures
        s@ == seq![digit_char(d as int)],
{
    proof {
        reveal_strlit("0");
        reveal_strlit("1");
        reveal_strlit("2");
        reveal_strlit("3");
        reveal_strlit("4");
        reveal_strlit("5");
        reveal_strlit("6");
        reveal_strlit("7");
        reveal_strlit("8");
        reveal_strlit("9");
    }
    let s = if d == 0 {
        "0"
    } else if d == 1 {
        "1"
    } else if d == 2 {
        "2"
    } else if d == 3 {
        "3"
    } else if d == 4 {
        "4"
    } else if d == 5 {
        "5"
    } else if d == 6 {
        "6"
    } else if d == 7 {
        "7"
    } else if d == 8 {
        "8"
    } else {
        "9"
    };
    assert(s@ =~= seq![digit_char(d as int)]);
    s
}

/// Writes the decimal digits of `n`.
pub fn render_digits(n: u128) -> (s: String)
    ensures
        s@ == digits(n as int),
    decreases n,
{
    if n < 10 {
        String::from_str(digit_text(n as u8))
    } else {
        let mut s = render_digits(n / 10);
        s.append(digit_text((n % 10) as u8));
        assert(s@ =~= digits(n as int));
        s
    }
}

/// Writes the decimal text of the integer with the given sign and magnitude.
pub fn render_decimal(negative: bool, magnitude: u128) -> (s: String)
    requires
        negative ==> magnitude > 0,
    ensures
        s@ == decimal_text(if negative { -(magnitude as int) } else { magnitude as int }),
{
    if negative {
        let mut s = String::from_str("-");
        let d = render_digits(magnitude);
        s.append(d.as_str());
        proof {
            reveal_strlit("-");
            assert(s@ =~= seq!['-'] + digits(magnitude as int));
        }
        s
    } else {
        render_digits(magnitude)
    }
}

} // verus!
