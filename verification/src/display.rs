//! Decimal rendering: the `YYYY-MM-DD HH:MM:SS` display form and the digit
//! helpers it is built from.

use vstd::prelude::*;
use vstd::string::StringExecFns;

use crate::datetime::DateTimeView;

verus! {

/// The decimal digit character for `d` in 0 through 9.
pub open spec fn digit_char(d: int) -> char {
    if d == 0 {
        '0'
    } else if d == 1 {
        '1'
    } else if d == 2 {
        '2'
    } else if d == 3 {
        '3'
    } else if d == 4 {
        '4'
    } else if d == 5 {
        '5'
    } else if d == 6 {
        '6'
    } else if d == 7 {
        '7'
    } else if d == 8 {
        '8'
    } else {
        '9'
    }
}

/// The decimal rendering of `n` without leading zeros (a single digit for
/// `n` below 10).
pub open spec fn spec_decimal(n: int) -> Seq<char>
    decreases n,
{
    if n <= 9 {
        seq![digit_char(n)]
    } else {
        spec_decimal(n / 10).push(digit_char(n % 10))
    }
}

/// The two-digit zero-padded rendering of `n` in 0 through 99.
pub open spec fn spec_two_digits(n: int) -> Seq<char> {
    seq![digit_char(n / 10), digit_char(n % 10)]
}

/// The display form `YYYY-MM-DD HH:MM:SS`: the year unpadded, every other
/// field zero-padded to two digits.
pub open spec fn spec_display(v: DateTimeView) -> Seq<char> {
    spec_decimal(v.year) + seq!['-'] + spec_two_digits(v.month) + seq!['-'] + spec_two_digits(v.day)
        + seq![' '] + spec_two_digits(v.hour) + seq![':'] + spec_two_digits(v.minute) + seq![':']
        + spec_two_digits(v.second)
}

/// The one-character string for the digit `d`.
pub(crate) fn digit_str(d: u8) -> (s: &'static str)
    requires
        d < 10,
    ensures
        s@ == seq![digit_char(d as int)],
{
    let s: &'static str = match d {
        0 => "0",
        1 => "1",
        2 => "2",
        3 => "3",
        4 => "4",
        5 => "5",
        6 => "6",
        7 => "7",
        8 => "8",
        _ => "9",
    };
    proof {
        reveal_strlit("0");
        reveal_strlit("1");
        reveal_strlit("2");
        reveal_strlit("3");
        reveal_strlit("4");
        reveal_strlit("5");
        reveal_strlit("6");
        reveal_strlit("7");
        reveal_strlit("8");
        reveal_strlit("9");
        assert(s@ =~= seq![digit_char(d as int)]);
    }
    s
}

/// Appends the unpadded decimal rendering of `n`.
pub(crate) fn push_decimal(out: &mut String, n: u16)
    ensures
        final (out)@ == old(out)@ + spec_decimal(n as int),
    decreases n,
{
    let ghost pre = out@;
    if n <= 9 {
        out.append(digit_str(n as u8));
    } else {
        push_decimal(out, n / 10);
        out.append(digit_str((n % 10) as u8));
    }
    proof {
        assert(out@ =~= pre + spec_decimal(n as int));
    }
}

/// Appends the two-digit zero-padded rendering of `n`.
pub(crate) fn push_two_digits(out: &mut String, n: u8)
    requires
        n < 100,
    ensures
        final (out)@ == old(out)@ + spec_two_digits(n as int),
{
    let ghost pre = out@;
    out.append(digit_str(n / 10));
    out.append(digit_str(n % 10));
    proof {
        assert(out@ =~= pre + spec_two_digits(n as int));
    }
}

} // verus!
