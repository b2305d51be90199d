//! Numbers written out in decimal digits.

use vstd::prelude::*;
use vstd::string::StringExecFns;

verus! {

/// The character that writes the digit `d`.
pub open spec fn digit_char(d: int) -> char {
    if d == 0 {
        '0'
    } else if d == 1 {
        '1'
    } else if d == 2 {
        '2'
    } else if d == 3 {
        '3'
    } else if d == 4 {
        '4'
    } else if d == 5 {
        '5'
    } else if d == 6 {
        '6'
    } else if d == 7 {
        '7'
    } else if d == 8 {
        '8'
    } else {
        '9'
    }
}

/// A number below a hundred in two digits, with a leading zero where it
/// is below ten.
pub open spec fn two_digits(n: int) -> Seq<char> {
    seq![digit_char(n / 10), digit_char(n % 10)]
}

/// A number below a thousand in three places, with blanks in place of
/// leading zeros.
pub open spec fn three_places(n: int) -> Seq<char> {
    if n < 10 {
        seq![' ', ' ', digit_char(n)]
    } else if n < 100 {
        seq![' ', digit_char(n / 10), digit_char(n % 10)]
    } else {
        seq![digit_char(n / 100), digit_char((n / 10) % 10), digit_char(n % 10)]
    }
}

/// The text of one digit.
pub fn digit_text(d: u8) -> (text: &'static str)
    requires
        d < 10,
    ensures
        text@ == seq![digit_char(d as int)],
{
    proof {
        reveal_strlit("0");
        reveal_strlit("1");
        reveal_strlit("2");
        reveal_strlit("3");
        reveal_strlit("4");
        reveal_strlit("5");
        reveal_strlit("6");
        reveal_strlit("7");
        reveal_strlit("8");
        reveal_strlit("9");
    }
    let text = if d == 0 {
        "0"
    } else if d == 1 {
        "1"
    } else if d == 2 {
        "2"
    } else if d == 3 {
        "3"
    } else if d == 4 {
        "4"
    } else if d == 5 {
        "5"
    } else if d == 6 {
        "6"
    } else if d == 7 {
        "7"
    } else if d == 8 {
        "8"
    } else {
        "9"
    };
    assert(text@ =~= seq![digit_char(d as int)]);
    text
}

/// Appends a number below a hundred in two digits.
pub fn push_two_digits(text: &mut String, n: u8)
    requires
        n < 100,
    ensures
        final(text)@ == old(text)@ + two_digits(n as int),
{
    text.append(digit_text(n / 10));
    text.append(digit_text(n % 10));
    assert(text@ =~= old(text)@ + two_digits(n as int));
}

/// Appends a number below a thousand in three places.
pub fn push_three_places(text: &mut String, n: u16)
    requires
        n < 1000,
    ensures
        final(text)@ == old(text)@ + three_places(n as int),
{
    proof {
        reveal_strlit(" ");
    }
    if n < 10 {
        text.append(" ");
        text.append(" ");
        text.append(digit_text(n as u8));
    } else if n < 100 {
        text.append(" ");
        text.append(digit_text((n / 10) as u8));
        text.append(digit_text((n % 10) as u8));
    } else {
        text.append(digit_text((n / 100) as u8));
        text.append(digit_text(((n / 10) % 10) as u8));
        text.append(digit_text((n % 10) as u8));
    }
    assert(text@ =~= old(text)@ + three_places(n as int));
}

} // verus!
