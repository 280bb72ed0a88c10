//! Decimal rendering of integers and fixed-point values.
//!
//! Plain rendering (`fx_plain`) prints a fixed-point value the way a decimal
//! calculator would: no fraction part when it is zero, otherwise up to four
//! fractional digits with trailing zeros removed.  Two-place rendering
//! (`fx_two`) rounds to exactly two fractional digits, halves away from zero.

use vstd::prelude::*;
use vstd::string::StringExecFns;
use crate::fixed::abs_val;

verus! {

/// The character for one decimal digit.
pub open spec fn digit_char(d: int) -> char {
    if d == 0 {
        '0'
    } else if d == 1 {
        '1'
    } else if d == 2 {
        '2'
    } else if d == 3 {
        '3'
    } else if d == 4 {
        '4'
    } else if d == 5 {
        '5'
    } else if d == 6 {
        '6'
    } else if d == 7 {
        '7'
    } else if d == 8 {
        '8'
    } else {
        '9'
    }
}

/// Decimal digits of a nonnegative integer, most significant first.
pub open spec fn dec_digits(n: int) -> Seq<char>
    recommends
        n >= 0,
    decreases n,
{
    if n < 10 {
        seq![digit_char(n)]
    } else {
        dec_digits(n / 10) + seq![digit_char(n % 10)]
    }
}

/// The low `w` decimal digits of `n`, zero-padded to width `w`.
pub open spec fn pad_digits(n: int, w: int) -> Seq<char>
    recommends
        n >= 0,
        w >= 1,
    decreases w,
{
    if w <= 1 {
        seq![digit_char(n % 10)]
    } else {
        pad_digits(n / 10, w - 1) + seq![digit_char(n % 10)]
    }
}

/// A `w`-digit fraction with its trailing zeros removed.
pub open spec fn frac_digits(n: int, w: int) -> Seq<char>
    recommends
        n >= 1,
        w >= 1,
    decreases w,
{
    if w > 1 && n % 10 == 0 {
        frac_digits(n / 10, w - 1)
    } else {
        pad_digits(n, w)
    }
}

/// Plain decimal form of a nonnegative fixed-point value.
pub open spec fn fx_plain_mag(m: int) -> Seq<char>
    recommends
        m >= 0,
{
    let ip = m / 10000;
    let fp = m % 10000;
    if fp == 0 {
        dec_digits(ip)
    } else {
        dec_digits(ip) + seq!['.'] + frac_digits(fp, 4)
    }
}

/// Plain decimal form of a fixed-point value.
pub open spec fn fx_plain(v: int) -> Seq<char> {
    if v < 0 {
        seq!['-'] + fx_plain_mag(-v)
    } else {
        fx_plain_mag(v)
    }
}

/// Two-place decimal form of a fixed-point value, rounded half away from
/// zero.
pub open spec fn fx_two(v: int) -> Seq<char> {
    let m = abs_val(v);
    let q = m / 100 + if m % 100 >= 50 {
        1int
    } else {
        0int
    };
    let body = dec_digits(q / 100) + seq!['.'] + pad_digits(q % 100, 2);
    if v < 0 {
        seq!['-'] + body
    } else {
        body
    }
}

/// One-character string for a decimal digit.
pub fn digit_str(d: u64) -> (r: &'static str)
    requires
        d < 10,
    ensures
        r@ == seq![digit_char(d as int)],
{
    proof {
        reveal_strlit("0");
        reveal_strlit("1");
        reveal_strlit("2");
        reveal_strlit("3");
        reveal_strlit("4");
        reveal_strlit("5");
        reveal_strlit("6");
        reveal_strlit("7");
        reveal_strlit("8");
        reveal_strlit("9");
    }
    let r = if d == 0 {
        "0"
    } else if d == 1 {
        "1"
    } else if d == 2 {
        "2"
    } else if d == 3 {
        "3"
    } else if d == 4 {
        "4"
    } else if d == 5 {
        "5"
    } else if d == 6 {
        "6"
    } else if d == 7 {
        "7"
    } else if d == 8 {
        "8"
    } else {
        "9"
    };
    proof {
        assert(r@ =~= seq![digit_char(d as int)]);
    }
    r
}

/// Appends the decimal digits of `n`.
pub fn push_dec(out: &mut String, n: u64)
    ensures
        final(out)@ == old(out)@ + dec_digits(n as int),
    decreases n,
{
    if n < 10 {
        out.append(digit_str(n));
    } else {
        push_dec(out, n / 10);
        out.append(digit_str(n % 10));
        proof {
            assert(out@ =~= old(out)@ + dec_digits(n as int));
        }
    }
}

/// Appends the low `w` digits of `n`, zero-padded.
pub fn push_pad(out: &mut String, n: u64, w: u64)
    requires
        w >= 1,
    ensures
        final(out)@ == old(out)@ + pad_digits(n as int, w as int),
    decreases w,
{
    if w <= 1 {
        out.append(digit_str(n % 10));
    } else {
        push_pad(out, n / 10, w - 1);
        out.append(digit_str(n % 10));
        proof {
            assert(out@ =~= old(out)@ + pad_digits(n as int, w as int));
        }
    }
}

/// Appends a `w`-digit fraction with trailing zeros removed.
pub fn push_frac(out: &mut String, n: u64, w: u64)
    requires
        w >= 1,
    ensures
        final(out)@ == old(out)@ + frac_digits(n as int, w as int),
    decreases w,
{
    if w > 1 && n % 10 == 0 {
        push_frac(out, n / 10, w - 1);
    } else {
        push_pad(out, n, w);
    }
}

/// Appends the plain decimal form of a nonnegative fixed-point value.
pub fn push_plain_mag(out: &mut String, m: u64)
    ensures
        final(out)@ == old(out)@ + fx_plain_mag(m as int),
{
    let ip = m / 10000;
    let fp = m % 10000;
    push_dec(out, ip);
    if fp != 0 {
        out.append(".");
        push_frac(out, fp, 4);
        proof {
            reveal_strlit(".");
            assert("."@ =~= seq!['.']);
            assert(out@ =~= old(out)@ + fx_plain_mag(m as int));
        }
    }
}

/// Appends the plain decimal form of a fixed-point value.
pub fn push_fx_plain(out: &mut String, v: i64)
    requires
        v > i64::MIN,
    ensures
        final(out)@ == old(out)@ + fx_plain(v as int),
{
    if v < 0 {
        out.append("-");
        push_plain_mag(out, (-v) as u64);
        proof {
            reveal_strlit("-");
            assert("-"@ =~= seq!['-']);
            assert(out@ =~= old(out)@ + fx_plain(v as int));
        }
    } else {
        push_plain_mag(out, v as u64);
    }
}

/// Appends the two-place decimal form of a fixed-point value.
pub fn push_fx_two(out: &mut String, v: i64)
    requires
        v > i64::MIN,
    ensures
        final(out)@ == old(out)@ + fx_two(v as int),
{
    let m: u64 = if v < 0 {
        (-v) as u64
    } else {
        v as u64
    };
    let q: u64 = m / 100 + if m % 100 >= 50 {
        1
    } else {
        0
    };
    if v < 0 {
        out.append("-");
        proof {
            reveal_strlit("-");
            assert("-"@ =~= seq!['-']);
        }
    }
    push_dec(out, q / 100);
    out.append(".");
    push_pad(out, q % 100, 2);
    proof {
        reveal_strlit(".");
        assert("."@ =~= seq!['.']);
        assert(out@ =~= old(out)@ + fx_two(v as int));
    }
}

} // verus!
