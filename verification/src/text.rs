//! Building log messages: exact decimal rendering of integers.
//!
//! Event messages are ordinary `String`s; these helpers render numbers into
//! them with a contract that pins every character.

use vstd::prelude::*;

verus! {

/// The character for one decimal digit.
pub open spec fn spec_digit(d: int) -> char {
    if d == 0 {
        '0'
    } else if d == 1 {
        '1'
    } else if d == 2 {
        '2'
    } else if d == 3 {
        '3'
    } else if d == 4 {
        '4'
    } else if d == 5 {
        '5'
    } else if d == 6 {
        '6'
    } else if d == 7 {
        '7'
    } else if d == 8 {
        '8'
    } else {
        '9'
    }
}

/// The decimal rendering of a non-negative integer, most significant digit first.
pub open spec fn spec_decimal(n: int) -> Seq<char>
    decreases n,
{
    if n < 10 {
        seq![spec_digit(n)]
    } else {
        spec_decimal(n / 10) + seq![spec_digit(n % 10)]
    }
}

/// The rendering of a signed integer: a minus sign before the digits when negative.
pub open spec fn spec_decimal_i32(v: int) -> Seq<char> {
    if v < 0 {
        seq!['-'] + spec_decimal(-v)
    } else {
        spec_decimal(v)
    }
}

/// The one-character string for a decimal digit.
fn digit_str(d: u32) -> (r: &'static str)
    requires
        d < 10,
    ensures
        r@ == seq![spec_digit(d as int)],
{
    proof {
        reveal_strlit("0");
        reveal_strlit("1");
        reveal_strlit("2");
        reveal_strlit("3");
        reveal_strlit("4");
        reveal_strlit("5");
        reveal_strlit("6");
        reveal_strlit("7");
        reveal_strlit("8");
        reveal_strlit("9");
    }
    let r = match d {
        0 => "0",
        1 => "1",
        2 => "2",
        3 => "3",
        4 => "4",
        5 => "5",
        6 => "6",
        7 => "7",
        8 => "8",
        _ => "9",
    };
    proof {
        assert(r@ =~= seq![spec_digit(d as int)]);
    }
    r
}

/// Appends the decimal rendering of `n` to `s`.
pub fn append_u32(s: &mut String, n: u32)
    ensures
        final(s)@ == old(s)@ + spec_decimal(n as int),
    decreases n,
{
    if n >= 10 {
        append_u32(s, n / 10);
    }
    s.append(digit_str(n % 10));
    proof {
        if n >= 10 {
            assert(final(s)@ =~= old(s)@ + spec_decimal(n as int));
        } else {
            assert(final(s)@ =~= old(s)@ + spec_decimal(n as int));
        }
    }
}

/// Appends the decimal rendering of `n` to `s`.
pub fn append_u64(s: &mut String, n: u64)
    ensures
        final(s)@ == old(s)@ + spec_decimal(n as int),
    decreases n,
{
    if n >= 10 {
        append_u64(s, n / 10);
    }
    s.append(digit_str((n % 10) as u32));
    proof {
        assert(final(s)@ =~= old(s)@ + spec_decimal(n as int));
    }
}

/// Appends the decimal rendering of `v` to `s`, with a sign when negative.
pub fn append_i32(s: &mut String, v: i32)
    ensures
        final(s)@ == old(s)@ + spec_decimal_i32(v as int),
{
    if v < 0 {
        proof {
            reveal_strlit("-");
        }
        s.append("-");
        let mag64: i64 = -(v as i64);
        let mag: u32 = mag64 as u32;
        append_u32(s, mag);
        proof {
            assert(final(s)@ =~= old(s)@ + spec_decimal_i32(v as int));
        }
    } else {
        let mag: u32 = v as u32;
        append_u32(s, mag);
    }
}

} // verus!
