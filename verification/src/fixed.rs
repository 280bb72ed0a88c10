//! Fixed-point arithmetic for the preview geometry.
//!
//! Every coordinate, length and scale in the library is carried as an `i64`
//! counting ten-thousandths of a unit (inches for panel space, pixels for
//! canvas space).  Products and quotients truncate toward zero, mirroring a
//! plain decimal calculation at four fractional digits.

use vstd::prelude::*;

verus! {

/// Number of fixed-point steps per whole unit.
pub const SCALE: i64 = 10000;

/// Largest magnitude a decoded input number may have, in fixed-point steps
/// (ten million whole units).  The bound keeps every intermediate product of
/// the rendering pipeline inside `i64`.
pub const MAX_NUM: i64 = 100_000_000_000;

/// Magnitude of an integer.
pub open spec fn abs_val(a: int) -> int {
    if a >= 0 {
        a
    } else {
        -a
    }
}

/// Fixed-point product, truncated toward zero.
pub open spec fn fx_mul_val(a: int, b: int) -> int {
    let p = a * b;
    if p >= 0 {
        p / (SCALE as int)
    } else {
        -((-p) / (SCALE as int))
    }
}

/// Fixed-point quotient, truncated toward zero; the divisor must be positive.
pub open spec fn fx_div_val(a: int, b: int) -> int
    recommends
        b > 0,
{
    if a >= 0 {
        (a * (SCALE as int)) / b
    } else {
        -(((-a) * (SCALE as int)) / b)
    }
}

/// Half of a value, truncated toward zero.
pub open spec fn fx_half_val(a: int) -> int {
    if a >= 0 {
        a / 2
    } else {
        -((-a) / 2)
    }
}

/// The smaller of two values.
pub open spec fn fx_min_val(a: int, b: int) -> int {
    if a <= b {
        a
    } else {
        b
    }
}

/// The larger of two values.
pub open spec fn fx_max_val(a: int, b: int) -> int {
    if a >= b {
        a
    } else {
        b
    }
}

/// Fixed-point product.
pub fn fx_mul(a: i64, b: i64) -> (r: i64)
    requires
        -0x7fff_ffff_ffff_ffff <= fx_mul_val(a as int, b as int) <= 0x7fff_ffff_ffff_ffff,
    ensures
        r as int == fx_mul_val(a as int, b as int),
{
    let p: i128 = (a as i128) * (b as i128);
    if p >= 0 {
        let q: u128 = (p as u128) / 10000;
        q as i64
    } else {
        assert(p > i128::MIN) by (nonlinear_arith)
            requires
                p == (a as int) * (b as int),
                -0x8000_0000_0000_0000 <= a as int <= 0x7fff_ffff_ffff_ffff,
                -0x8000_0000_0000_0000 <= b as int <= 0x7fff_ffff_ffff_ffff,
        ;
        let q: u128 = ((-p) as u128) / 10000;
        -(q as i64)
    }
}

/// Fixed-point quotient by a positive divisor.
pub fn fx_div(a: i64, b: i64) -> (r: i64)
    requires
        b >= 1,
        -0x7fff_ffff_ffff_ffff <= fx_div_val(a as int, b as int) <= 0x7fff_ffff_ffff_ffff,
    ensures
        r as int == fx_div_val(a as int, b as int),
{
    if a >= 0 {
        let p: i128 = (a as i128) * 10000;
        let q: u128 = (p as u128) / (b as u128);
        q as i64
    } else {
        let p: i128 = (-(a as i128)) * 10000;
        let q: u128 = (p as u128) / (b as u128);
        -(q as i64)
    }
}

/// Half of a value.
pub fn fx_half(a: i64) -> (r: i64)
    requires
        a > i64::MIN,
    ensures
        r as int == fx_half_val(a as int),
{
    if a >= 0 {
        ((a as u64) / 2) as i64
    } else {
        let m: u64 = (-a) as u64;
        -((m / 2) as i64)
    }
}

/// The smaller of two values.
pub fn fx_min(a: i64, b: i64) -> (r: i64)
    ensures
        r as int == fx_min_val(a as int, b as int),
{
    if a <= b {
        a
    } else {
        b
    }
}

/// The larger of two values.
pub fn fx_max(a: i64, b: i64) -> (r: i64)
    ensures
        r as int == fx_max_val(a as int, b as int),
{
    if a >= b {
        a
    } else {
        b
    }
}

/// Magnitude bound for a fixed-point product: factors bounded by `aa` and
/// `bb` keep the product within `aa * bb / SCALE`.
pub proof fn lemma_fx_mul_bound(a: int, b: int, aa: int, bb: int)
    requires
        abs_val(a) <= aa,
        abs_val(b) <= bb,
        0 <= aa,
        0 <= bb,
    ensures
        abs_val(fx_mul_val(a, b)) <= (aa * bb) / (SCALE as int),
{
    let p = a * b;
    assert(abs_val(p) <= aa * bb) by (nonlinear_arith)
        requires
            abs_val(a) <= aa,
            abs_val(b) <= bb,
            0 <= aa,
            0 <= bb,
            p == a * b,
    ;
    if p >= 0 {
        vstd::arithmetic::div_mod::lemma_div_is_ordered(p, aa * bb, SCALE as int);
        vstd::arithmetic::div_mod::lemma_div_pos_is_pos(p, SCALE as int);
    } else {
        vstd::arithmetic::div_mod::lemma_div_is_ordered(-p, aa * bb, SCALE as int);
        vstd::arithmetic::div_mod::lemma_div_pos_is_pos(-p, SCALE as int);
    }
}

/// Magnitude bound for a fixed-point quotient: a dividend bounded by `aa`
/// and a divisor of at least one keep the quotient within `aa * SCALE`.
pub proof fn lemma_fx_div_bound(a: int, b: int, aa: int)
    requires
        abs_val(a) <= aa,
        0 <= aa,
        b >= 1,
    ensures
        abs_val(fx_div_val(a, b)) <= aa * (SCALE as int),
{
    let s = SCALE as int;
    let m = abs_val(a) * s;
    assert(m <= aa * s) by (nonlinear_arith)
        requires
            abs_val(a) <= aa,
            0 <= aa,
            s == SCALE as int,
            m == abs_val(a) * s,
    ;
    assert(m / b <= m) by {
        vstd::arithmetic::div_mod::lemma_div_nonincreasing(m, b);
    }
    vstd::arithmetic::div_mod::lemma_div_pos_is_pos(m, b);
}

} // verus!
