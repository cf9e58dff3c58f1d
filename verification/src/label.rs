//! The text form of a duration: "<years> years, <months> months, and <days> days".

use crate::delta::{OwnershipDuration, YmdSpan};
use vstd::prelude::*;
use vstd::string::StringExecFns;

verus! {

/// The character of a decimal digit 0 to 9.
pub open spec fn digit_char(digit: int) -> char {
    if digit == 0 {
        '0'
    } else if digit == 1 {
        '1'
    } else if digit == 2 {
        '2'
    } else if digit == 3 {
        '3'
    } else if digit == 4 {
        '4'
    } else if digit == 5 {
        '5'
    } else if digit == 6 {
        '6'
    } else if digit == 7 {
        '7'
    } else if digit == 8 {
        '8'
    } else {
        '9'
    }
}

/// The decimal digits of a natural number, most significant first, without
/// leading zeros.
pub open spec fn decimal_digits(n: nat) -> Seq<char>
    decreases n,
{
    if n < 10 {
        seq![digit_char(n as int)]
    } else {
        decimal_digits(n / 10).push(digit_char((n % 10) as int))
    }
}

/// The decimal form of an integer, with a leading minus sign when negative.
pub open spec fn decimal(n: int) -> Seq<char> {
    if n < 0 {
        seq!['-'] + decimal_digits((-n) as nat)
    } else {
        decimal_digits(n as nat)
    }
}

/// The label of a duration.
pub open spec fn duration_label(span: YmdSpan) -> Seq<char> {
    decimal(span.years) + " years, "@ + decimal(span.months) + " months, and "@ + decimal(
        span.days,
    ) + " days"@
}

fn digit_text(digit: u32) -> (text: &'static str)
    requires
        digit < 10,
    ensures
        text@ == seq![digit_char(digit as int)],
{
    proof {
        reveal_strlit("0");
        reveal_strlit("1");
        reveal_strlit("2");
        reveal_strlit("3");
        reveal_strlit("4");
        reveal_strlit("5");
        reveal_strlit("6");
        reveal_strlit("7");
        reveal_strlit("8");
        reveal_strlit("9");
    }
    let text = if digit == 0 {
        "0"
    } else if digit == 1 {
        "1"
    } else if digit == 2 {
        "2"
    } else if digit == 3 {
        "3"
    } else if digit == 4 {
        "4"
    } else if digit == 5 {
        "5"
    } else if digit == 6 {
        "6"
    } else if digit == 7 {
        "7"
    } else if digit == 8 {
        "8"
    } else {
        "9"
    };
    assert(text@ =~= seq![digit_char(digit as int)]);
    text
}

fn append_digits(out: &mut String, n: u32)
    ensures
        final(out)@ == old(out)@ + decimal_digits(n as nat),
    decreases n,
{
    if n >= 10 {
        append_digits(out, n / 10);
    }
    out.append(digit_text(n % 10));
    assert(final(out)@ =~= old(out)@ + decimal_digits(n as nat));
}

/// Appends the decimal form of `n` to `out`.
pub fn append_decimal(out: &mut String, n: i32)
    ensures
        final(out)@ == old(out)@ + decimal(n as int),
{
    if n < 0 {
        proof {
            reveal_strlit("-");
        }
        out.append("-");
        let magnitude: i64 = -(n as i64);
        append_digits(out, magnitude as u32);
        assert(final(out)@ =~= old(out)@ + decimal(n as int));
    } else {
        append_digits(out, n as u32);
    }
}

impl OwnershipDuration {
    /// The duration in words, such as `1 years, 0 months, and 5 days`.
    pub fn label(&self) -> (text: String)
        ensures
            text@ == duration_label(self@),
    {
        let mut text = String::new();
        append_decimal(&mut text, self.years());
        text.append(" years, ");
        append_decimal(&mut text, self.months());
        text.append(" months, and ");
        append_decimal(&mut text, self.days());
        text.append(" days");
        assert(text@ =~= duration_label(self@));
        text
    }
}

} // verus!
