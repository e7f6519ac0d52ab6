//! Decimal rendering of scalars: the building block of the
//! human-readable notations of both complex-number forms.

use vstd::prelude::*;
use vstd::string::StringExecFns;
use crate::scalar::{abs_int, Real, SCALE};

verus! {

/// The decimal digit character for `d`.
pub open spec fn digit_char(d: int) -> char
    recommends
        0 <= d < 10,
{
    if d == 0 {
        '0'
    } else if d == 1 {
        '1'
    } else if d == 2 {
        '2'
    } else if d == 3 {
        '3'
    } else if d == 4 {
        '4'
    } else if d == 5 {
        '5'
    } else if d == 6 {
        '6'
    } else if d == 7 {
        '7'
    } else if d == 8 {
        '8'
    } else {
        '9'
    }
}

/// The decimal digits of `n`, most significant first.
pub open spec fn dec_digits(n: nat) -> Seq<char>
    decreases n,
{
    if n < 10 {
        seq![digit_char(n as int)]
    } else {
        dec_digits(n / 10).push(digit_char((n % 10) as int))
    }
}

/// Exactly `width` decimal digits of `n`, zero padded at the front.
pub open spec fn dec_digits_pad(n: nat, width: nat) -> Seq<char>
    decreases width,
{
    if width == 0 {
        Seq::empty()
    } else {
        dec_digits_pad(n / 10, (width - 1) as nat).push(digit_char((n % 10) as int))
    }
}

/// The rendering of a nonnegative count of units: the integer part, a
/// point, and nine decimal places of the fractional part, truncated.
pub open spec fn mag_text(m: nat) -> Seq<char> {
    dec_digits(m / (SCALE as nat)) + seq!['.'] + dec_digits_pad(
        (m % (SCALE as nat)) * 1000000000 / (SCALE as nat),
        9,
    )
}

/// The rendering of a scalar: a minus sign when negative, then the
/// rendering of its magnitude.
pub open spec fn real_text(u: int) -> Seq<char> {
    if u < 0 {
        seq!['-'] + mag_text(abs_int(u) as nat)
    } else {
        mag_text(abs_int(u) as nat)
    }
}

/// Append the decimal digit character for `d`.
pub(crate) fn push_digit(s: &mut String, d: u64)
    requires
        d < 10,
    ensures
        final(s)@ == old(s)@.push(digit_char(d as int)),
{
    if d == 0 {
        s.append("0");
        proof {
            reveal_strlit("0");
            assert(s@ =~= old(s)@.push(digit_char(d as int)));
        }
    } else if d == 1 {
        s.append("1");
        proof {
            reveal_strlit("1");
            assert(s@ =~= old(s)@.push(digit_char(d as int)));
        }
    } else if d == 2 {
        s.append("2");
        proof {
            reveal_strlit("2");
            assert(s@ =~= old(s)@.push(digit_char(d as int)));
        }
    } else if d == 3 {
        s.append("3");
        proof {
            reveal_strlit("3");
            assert(s@ =~= old(s)@.push(digit_char(d as int)));
        }
    } else if d == 4 {
        s.append("4");
        proof {
            reveal_strlit("4");
            assert(s@ =~= old(s)@.push(digit_char(d as int)));
        }
    } else if d == 5 {
        s.append("5");
        proof {
            reveal_strlit("5");
            assert(s@ =~= old(s)@.push(digit_char(d as int)));
        }
    } else if d == 6 {
        s.append("6");
        proof {
            reveal_strlit("6");
            assert(s@ =~= old(s)@.push(digit_char(d as int)));
        }
    } else if d == 7 {
        s.append("7");
        proof {
            reveal_strlit("7");
            assert(s@ =~= old(s)@.push(digit_char(d as int)));
        }
    } else if d == 8 {
        s.append("8");
        proof {
            reveal_strlit("8");
            assert(s@ =~= old(s)@.push(digit_char(d as int)));
        }
    } else {
        s.append("9");
        proof {
            reveal_strlit("9");
            assert(s@ =~= old(s)@.push(digit_char(d as int)));
        }
    }
}

/// Append the decimal digits of `n`.
pub(crate) fn push_dec(s: &mut String, n: u64)
    ensures
        final(s)@ == old(s)@ + dec_digits(n as nat),
    decreases n,
{
    if n < 10 {
        push_digit(s, n);
        proof {
            assert(s@ =~= old(s)@ + dec_digits(n as nat));
        }
    } else {
        push_dec(s, n / 10);
        push_digit(s, n % 10);
        proof {
            assert(s@ =~= old(s)@ + dec_digits(n as nat));
        }
    }
}

/// Append exactly `width` decimal digits of `n`, zero padded.
pub(crate) fn push_dec_pad(s: &mut String, n: u64, width: u64)
    ensures
        final(s)@ == old(s)@ + dec_digits_pad(n as nat, width as nat),
    decreases width,
{
    if width == 0 {
        proof {
            assert(s@ =~= old(s)@ + dec_digits_pad(n as nat, 0));
        }
    } else {
        push_dec_pad(s, n / 10, width - 1);
        push_digit(s, n % 10);
        proof {
            assert(s@ =~= old(s)@ + dec_digits_pad(n as nat, width as nat));
        }
    }
}

/// Append the rendering of the magnitude `mag`, in units.
pub(crate) fn push_mag(s: &mut String, mag: u64)
    ensures
        final(s)@ == old(s)@ + mag_text(mag as nat),
{
    let ip: u64 = mag / (SCALE as u64);
    let fr: u64 = mag % (SCALE as u64);
    push_dec(s, ip);
    s.append(".");
    let fd: u64 = fr * 1000000000 / (SCALE as u64);
    push_dec_pad(s, fd, 9);
    proof {
        reveal_strlit(".");
        assert(s@ =~= old(s)@ + mag_text(mag as nat));
    }
}

/// Append the rendering of the scalar `u`.
pub(crate) fn push_real(s: &mut String, u: Real)
    ensures
        final(s)@ == old(s)@ + real_text(u as int),
{
    let m128: i128 = u as i128;
    let mag: u64 = if m128 < 0 {
        (-m128) as u64
    } else {
        m128 as u64
    };
    if u < 0 {
        s.append("-");
        proof {
            reveal_strlit("-");
        }
    }
    push_mag(s, mag);
    proof {
        assert(s@ =~= old(s)@ + real_text(u as int));
    }
}

} // verus!
