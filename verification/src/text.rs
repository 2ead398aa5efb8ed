//! Exact decimal rendering of the integers a detection holds.
//!
//! Everything here is verified: each executable function's output is pinned
//! to a spec-level character sequence, digit by digit.

use vstd::prelude::*;
use vstd::string::StrSliceExecFns;
use vstd::string::StringExecFns;

verus! {

/// The decimal digit character for a value below ten.
pub open spec fn digit_char(d: int) -> char {
    if d == 0 {
        '0'
    } else if d == 1 {
        '1'
    } else if d == 2 {
        '2'
    } else if d == 3 {
        '3'
    } else if d == 4 {
        '4'
    } else if d == 5 {
        '5'
    } else if d == 6 {
        '6'
    } else if d == 7 {
        '7'
    } else if d == 8 {
        '8'
    } else {
        '9'
    }
}

/// The decimal digits of a non-negative value, most significant first,
/// with no leading zeros (a lone `0` for zero).
pub open spec fn dec_digits(n: nat) -> Seq<char>
    decreases n,
{
    if n < 10 {
        seq![digit_char(n as int)]
    } else {
        dec_digits(n / 10).push(digit_char((n % 10) as int))
    }
}

/// The decimal text of a signed value: a leading `-` for negative values,
/// then the digits of the magnitude.
pub open spec fn int_text(v: int) -> Seq<char> {
    if v < 0 {
        seq!['-'] + dec_digits((-v) as nat)
    } else {
        dec_digits(v as nat)
    }
}

/// Appends one decimal digit character.
fn append_digit(out: &mut String, d: u64)
    requires
        d < 10,
    ensures
        final(out)@ == old(out)@.push(digit_char(d as int)),
{
    let digits: &str = "0123456789";
    proof {
        reveal_strlit("0123456789");
    }
    let piece = digits.substring_char(d as usize, d as usize + 1);
    out.append(piece);
    proof {
        assert(piece@ =~= seq![digit_char(d as int)]);
        assert(out@ =~= old(out)@.push(digit_char(d as int)));
    }
}

/// Appends the decimal digits of `n`, most significant first.
fn append_dec(out: &mut String, n: u64)
    ensures
        final(out)@ == old(out)@ + dec_digits(n as nat),
    decreases n,
{
    if n < 10 {
        append_digit(out, n);
        proof {
            assert(out@ =~= old(out)@ + dec_digits(n as nat));
        }
    } else {
        append_dec(out, n / 10);
        append_digit(out, n % 10);
        proof {
            assert(out@ =~= old(out)@ + dec_digits(n as nat));
        }
    }
}

/// Appends the decimal text of a signed value held as sign and magnitude.
/// `mag` is the magnitude of the value, `neg` says whether it is negative;
/// a magnitude of zero is rendered without a sign.
fn append_signed(out: &mut String, neg: bool, mag: u64)
    ensures
        final(out)@ == old(out)@ + int_text(if neg && mag > 0 {
            -(mag as int)
        } else {
            mag as int
        }),
{
    if neg && mag > 0 {
        let minus: &str = "-";
        proof {
            reveal_strlit("-");
        }
        out.append(minus);
        proof {
            assert(minus@ =~= seq!['-']);
        }
        append_dec(out, mag);
        proof {
            assert(out@ =~= old(out)@ + int_text(-(mag as int)));
        }
    } else {
        append_dec(out, mag);
    }
}

/// Splits a signed value into its sign and its magnitude.
fn sign_split(v: i64) -> (r: (bool, u64))
    ensures
        r.1 == if v < 0 {
            -(v as int)
        } else {
            v as int
        },
        r.0 == (v < 0),
{
    if v < 0 {
        let wide: i128 = -(v as i128);
        (true, wide as u64)
    } else {
        (false, v as u64)
    }
}

/// Appends the decimal text of a signed value.
pub fn append_int(out: &mut String, v: i64)
    ensures
        final(out)@ == old(out)@ + int_text(v as int),
{
    let (neg, mag) = sign_split(v);
    append_signed(out, neg, mag);
}

/// A value in thousandths rounded to hundredths, half away from zero: the
/// rounding the renderer applies to a confidence score.
pub open spec fn round_centi(milli: int) -> int {
    if milli >= 0 {
        (milli + 5) / 10
    } else {
        -((5 - milli) / 10)
    }
}

/// Text of a non-negative number of hundredths as `<units>.<two digits>`.
pub open spec fn centi_text(c: nat) -> Seq<char> {
    dec_digits(c / 100) + seq!['.', digit_char(((c / 10) % 10) as int), digit_char((c % 10) as int)]
}

/// Text of a confidence given in thousandths: rounded to hundredths, half
/// away from zero, with a `-` only when the rounded value is negative (a
/// rounded zero is rendered without a sign).
pub open spec fn conf_text(milli: int) -> Seq<char> {
    let c = round_centi(milli);
    if c < 0 {
        seq!['-'] + centi_text((-c) as nat)
    } else {
        centi_text(c as nat)
    }
}

/// Appends the two-decimal text of a confidence given in thousandths.
pub fn append_conf(out: &mut String, milli: i64)
    ensures
        final(out)@ == old(out)@ + conf_text(milli as int),
{
    let (neg, mag) = sign_split(milli);
    let cmag: u64 = if neg {
        (5 + mag) / 10
    } else {
        (mag + 5) / 10
    };
    proof {
        assert(round_centi(milli as int) == if neg {
            -(cmag as int)
        } else {
            cmag as int
        });
    }
    if neg && cmag > 0 {
        let minus: &str = "-";
        proof {
            reveal_strlit("-");
        }
        out.append(minus);
        proof {
            assert(minus@ =~= seq!['-']);
        }
    }
    append_dec(out, cmag / 100);
    let dot: &str = ".";
    proof {
        reveal_strlit(".");
    }
    out.append(dot);
    proof {
        assert(dot@ =~= seq!['.']);
    }
    append_digit(out, (cmag / 10) % 10);
    append_digit(out, cmag % 10);
    proof {
        assert(out@ =~= old(out)@ + conf_text(milli as int));
    }
}

} // verus!
