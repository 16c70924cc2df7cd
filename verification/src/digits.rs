//! Decimal text for the integers that appear in the output: note
//! octave numbers and run-length counts.

use vstd::prelude::*;
use vstd::string::StringExecFns;

verus! {

/// The decimal digit character for a value below ten.
pub open spec fn digit_char(d: int) -> char {
    if d == 0 {
        '0'
    } else if d == 1 {
        '1'
    } else if d == 2 {
        '2'
    } else if d == 3 {
        '3'
    } else if d == 4 {
        '4'
    } else if d == 5 {
        '5'
    } else if d == 6 {
        '6'
    } else if d == 7 {
        '7'
    } else if d == 8 {
        '8'
    } else {
        '9'
    }
}

/// The usual decimal form of a non-negative integer: no sign, no
/// leading zero except for zero itself.
pub open spec fn dec_rep(n: nat) -> Seq<char>
    decreases n,
{
    if n < 10 {
        seq![digit_char(n as int)]
    } else {
        dec_rep(n / 10) + seq![digit_char((n % 10) as int)]
    }
}

/// The usual decimal form of an integer: a minus sign before the
/// digits when the value is negative.
pub open spec fn int_rep(n: int) -> Seq<char> {
    if n < 0 {
        "-"@ + dec_rep((-n) as nat)
    } else {
        dec_rep(n as nat)
    }
}

/// The one-character string for a decimal digit.
fn digit_str(d: u128) -> (s: &'static str)
    requires
        d < 10,
    ensures
        s@ == seq![digit_char(d as int)],
{
    proof {
        reveal_strlit("0");
        reveal_strlit("1");
        reveal_strlit("2");
        reveal_strlit("3");
        reveal_strlit("4");
        reveal_strlit("5");
        reveal_strlit("6");
        reveal_strlit("7");
        reveal_strlit("8");
        reveal_strlit("9");
    }
    let s = if d == 0 {
        "0"
    } else if d == 1 {
        "1"
    } else if d == 2 {
        "2"
    } else if d == 3 {
        "3"
    } else if d == 4 {
        "4"
    } else if d == 5 {
        "5"
    } else if d == 6 {
        "6"
    } else if d == 7 {
        "7"
    } else if d == 8 {
        "8"
    } else {
        "9"
    };
    proof {
        assert(s@ =~= seq![digit_char(d as int)]);
    }
    s
}

/// Appends the decimal digits of `n` to `out`.
pub fn push_dec(n: u128, out: &mut String)
    ensures
        final(out)@ == old(out)@ + dec_rep(n as nat),
    decreases n,
{
    if n >= 10 {
        push_dec(n / 10, out);
    }
    out.append(digit_str(n % 10));
    proof {
        if n < 10 {
            assert(dec_rep(n as nat) == seq![digit_char(n as int)]);
            assert(n % 10 == n);
        }
        assert(final(out)@ =~= old(out)@ + dec_rep(n as nat));
    }
}

/// Appends the decimal form of `n`, with a minus sign when negative,
/// to `out`.
pub fn push_int(n: i128, out: &mut String)
    ensures
        final(out)@ == old(out)@ + int_rep(n as int),
{
    if n >= 0 {
        push_dec(n as u128, out);
    } else {
        out.append("-");
        let mag: u128 = ((-(n + 1)) as u128) + 1;
        proof {
            assert(mag as int == -(n as int));
        }
        push_dec(mag, out);
        proof {
            assert(final(out)@ =~= old(out)@ + int_rep(n as int));
        }
    }
}

/// The decimal form of `n` as a fresh string.
pub fn int_to_string(n: i128) -> (s: String)
    ensures
        s@ == int_rep(n as int),
{
    let mut s = String::new();
    push_int(n, &mut s);
    proof {
        assert(s@ =~= int_rep(n as int));
    }
    s
}

} // verus!
