//! The state decoder: a validating parser from the textual payload to a
//! `State`.
//!
//! The grammar is the JSON object shape of the input schema: an object with
//! the required fields `width`, `height`, `depth`, `showGhost`, `showDims`,
//! `zoomMode` and `holes`, each hole an object with `dx`, `dy`, `nominal`,
//! `selected` and the optional `cut` and `spec`.  Unknown fields are
//! skipped, duplicates are rejected, and every number is range-checked into
//! fixed-point.  The spec-level parser (`spec_decode` and its helpers) is
//! the reference; the executable parser is proved to return exactly its
//! result.
//!
//! Two deliberate hardenings over a permissive reader: numbers beyond
//! `MAX_NUM` (or with more than thirty significant digits) are rejected as
//! out of range, and a non-positive panel width or height is rejected at
//! this boundary instead of producing a degenerate picture.

use vstd::prelude::*;
use crate::fixed::{abs_val, MAX_NUM};
use crate::state::{DecodeError, HoleModel, StateModel, ZoomMode, Hole, State, hole_wf, state_wf, opt_val};
use vstd::string::StrSliceExecFns;

verus! {

/// Saturation cap for digit accumulation: one more significant digit than
/// any in-range number can need.
pub const DIG_CAP: i128 = 1_000_000_000_000_000_000_000_000_000_000;

/// JSON whitespace.
pub open spec fn is_ws(c: char) -> bool {
    c == ' ' || c == '\t' || c == '\n' || c == '\r'
}

/// A decimal digit.
pub open spec fn is_digit(c: char) -> bool {
    48 <= c as u32 <= 57
}

/// Value of a decimal digit.
pub open spec fn digit_of(c: char) -> int {
    c as u32 - 48
}

/// A character that ends an unquoted primitive token.
pub open spec fn is_delim(c: char) -> bool {
    c == ',' || c == '}' || c == ']' || is_ws(c)
}

/// Position of the first non-whitespace character at or after `pos`.
pub open spec fn spec_skip_ws(s: Seq<char>, pos: int) -> int
    decreases s.len() - pos,
{
    if 0 <= pos < s.len() && is_ws(s[pos]) {
        spec_skip_ws(s, pos + 1)
    } else {
        pos
    }
}

/// Position just past the closing quote of a string whose opening quote
/// stands before `pos`; `None` when the string never closes.
pub open spec fn spec_scan_string(s: Seq<char>, pos: int) -> Option<int>
    decreases s.len() - pos,
{
    if !(0 <= pos < s.len()) {
        None
    } else if s[pos] == '"' {
        Some(pos + 1)
    } else if s[pos] == '\\' {
        if pos + 2 <= s.len() {
            spec_scan_string(s, pos + 2)
        } else {
            None
        }
    } else {
        spec_scan_string(s, pos + 1)
    }
}

/// Position of the first delimiter at or after `pos`.
pub open spec fn spec_scan_prim(s: Seq<char>, pos: int) -> int
    decreases s.len() - pos,
{
    if 0 <= pos < s.len() && !is_delim(s[pos]) {
        spec_scan_prim(s, pos + 1)
    } else {
        pos
    }
}

/// Position just past the bracket that closes `depth` open brackets,
/// scanning through nested brackets and strings.
pub open spec fn spec_skip_composite(s: Seq<char>, pos: int, depth: int, in_str: bool, esc: bool) -> Option<
    int,
>
    decreases s.len() - pos,
{
    if !(0 <= pos < s.len()) {
        None
    } else {
        let c = s[pos];
        if in_str {
            if esc {
                spec_skip_composite(s, pos + 1, depth, true, false)
            } else if c == '\\' {
                spec_skip_composite(s, pos + 1, depth, true, true)
            } else if c == '"' {
                spec_skip_composite(s, pos + 1, depth, false, false)
            } else {
                spec_skip_composite(s, pos + 1, depth, true, false)
            }
        } else if c == '"' {
            spec_skip_composite(s, pos + 1, depth, true, false)
        } else if c == '{' || c == '[' {
            spec_skip_composite(s, pos + 1, depth + 1, false, false)
        } else if c == '}' || c == ']' {
            if depth <= 1 {
                Some(pos + 1)
            } else {
                spec_skip_composite(s, pos + 1, depth - 1, false, false)
            }
        } else {
            spec_skip_composite(s, pos + 1, depth, false, false)
        }
    }
}

/// Position just past one whole value of any shape starting at `pos`;
/// `None` when no value starts there.
pub open spec fn spec_skip_value(s: Seq<char>, pos: int) -> Option<int> {
    if !(0 <= pos < s.len()) {
        None
    } else if s[pos] == '"' {
        spec_scan_string(s, pos + 1)
    } else if s[pos] == '{' || s[pos] == '[' {
        spec_skip_composite(s, pos + 1, 1, false, false)
    } else {
        let q = spec_scan_prim(s, pos);
        if q == pos {
            None
        } else {
            Some(q)
        }
    }
}

/// The literal `lit` stands at `pos` in `s`.
pub open spec fn has_lit(s: Seq<char>, pos: int, lit: Seq<char>) -> bool {
    0 <= pos && pos + lit.len() <= s.len() && s.subrange(pos, pos + lit.len()) == lit
}

/// Saturating decimal digit accumulation from `pos`: returns the
/// accumulated value (capped just above `DIG_CAP`) and the position of the
/// first non-digit.
pub open spec fn spec_digits(s: Seq<char>, pos: int, acc: int) -> (int, int)
    decreases s.len() - pos,
{
    if 0 <= pos < s.len() && is_digit(s[pos]) {
        let acc2 = if acc * 10 + digit_of(s[pos]) > DIG_CAP as int {
            DIG_CAP as int + 1
        } else {
            acc * 10 + digit_of(s[pos])
        };
        spec_digits(s, pos + 1, acc2)
    } else {
        (acc, pos)
    }
}

/// Ten to the `k`.
pub open spec fn pow10(k: int) -> int
    decreases k,
{
    if k <= 0 {
        1
    } else {
        10 * pow10(k - 1)
    }
}

/// The fixed-point value of a decimal literal with mantissa `m`, `f`
/// fraction digits and exponent `e`, truncated toward zero; `None` when it
/// falls outside the decoder's range.
pub open spec fn fixed_of_parts(m: int, f: int, e: int) -> Option<int> {
    if m == 0 {
        Some(0)
    } else if m > DIG_CAP as int {
        None
    } else {
        let p = e + 4 - f;
        if p >= 0 {
            if p > 11 {
                None
            } else {
                let v = m * pow10(p);
                if v <= MAX_NUM as int {
                    Some(v)
                } else {
                    None
                }
            }
        } else {
            if p < -30 {
                Some(0)
            } else {
                let v = m / pow10(-p);
                if v <= MAX_NUM as int {
                    Some(v)
                } else {
                    None
                }
            }
        }
    }
}

/// Parse of the number starting at `pos`: its fixed-point value and the
/// position just past it.
pub open spec fn spec_number(s: Seq<char>, pos: int) -> Result<(int, int), DecodeError> {
    let neg = 0 <= pos < s.len() && s[pos] == '-';
    let p0 = if neg {
        pos + 1
    } else {
        pos
    };
    let (m1, p1) = spec_digits(s, p0, 0);
    if p1 == p0 {
        Err(DecodeError::ExpectedNumber)
    } else {
        let has_frac = p1 < s.len() && s[p1] == '.';
        let (m2, p2) = if has_frac {
            spec_digits(s, p1 + 1, m1)
        } else {
            (m1, p1)
        };
        if has_frac && p2 == p1 + 1 {
            Err(DecodeError::ExpectedNumber)
        } else {
            let fraclen = if has_frac {
                p2 - (p1 + 1)
            } else {
                0
            };
            let has_exp = p2 < s.len() && (s[p2] == 'e' || s[p2] == 'E');
            let eneg = has_exp && p2 + 1 < s.len() && s[p2 + 1] == '-';
            let p3 = if !has_exp {
                p2
            } else if p2 + 1 < s.len() && (s[p2 + 1] == '-' || s[p2 + 1] == '+') {
                p2 + 2
            } else {
                p2 + 1
            };
            let (emag, p4) = if has_exp {
                spec_digits(s, p3, 0)
            } else {
                (0, p3)
            };
            if has_exp && p4 == p3 {
                Err(DecodeError::ExpectedNumber)
            } else {
                let e = if eneg {
                    -emag
                } else {
                    emag
                };
                match fixed_of_parts(m2, fraclen, e) {
                    Some(v) => Ok(
                        (
                            if neg {
                                -v
                            } else {
                                v
                            },
                            p4,
                        ),
                    ),
                    None => Err(DecodeError::NumberOutOfRange),
                }
            }
        }
    }
}

/// Whitespace test on one character.
fn ws_char(c: char) -> (r: bool)
    ensures
        r == is_ws(c),
{
    c == ' ' || c == '\t' || c == '\n' || c == '\r'
}

/// Skips whitespace.
pub fn skip_ws(s: &str, n: usize, pos: usize) -> (r: usize)
    requires
        n == s@.len(),
        pos <= n,
    ensures
        r as int == spec_skip_ws(s@, pos as int),
        pos <= r <= n,
{
    let mut p: usize = pos;
    loop
        invariant
            n == s@.len(),
            pos <= p <= n,
            spec_skip_ws(s@, pos as int) == spec_skip_ws(s@, p as int),
        decreases n - p,
    {
        if p < n && ws_char(s.get_char(p)) {
            p = p + 1;
        } else {
            return p;
        }
    }
}

/// Scans to the closing quote of a string; `pos` stands just past the
/// opening quote.
fn scan_string(s: &str, n: usize, pos: usize) -> (r: Option<usize>)
    requires
        n == s@.len(),
        pos <= n,
    ensures
        match spec_scan_string(s@, pos as int) {
            Some(q) => r matches Some(rq) && rq as int == q && pos < rq <= n,
            None => r is None,
        },
{
    let mut p: usize = pos;
    loop
        invariant
            n == s@.len(),
            pos <= p <= n,
            spec_scan_string(s@, pos as int) == spec_scan_string(s@, p as int),
        decreases n - p,
    {
        if p >= n {
            return None;
        }
        let c = s.get_char(p);
        if c == '"' {
            return Some(p + 1);
        } else if c == '\\' {
            if n - p >= 2 {
                p = p + 2;
            } else {
                return None;
            }
        } else {
            p = p + 1;
        }
    }
}

/// Scans to the first delimiter.
fn scan_prim(s: &str, n: usize, pos: usize) -> (r: usize)
    requires
        n == s@.len(),
        pos <= n,
    ensures
        r as int == spec_scan_prim(s@, pos as int),
        pos <= r <= n,
{
    let mut p: usize = pos;
    loop
        invariant
            n == s@.len(),
            pos <= p <= n,
            spec_scan_prim(s@, pos as int) == spec_scan_prim(s@, p as int),
        decreases n - p,
    {
        if p < n {
            let c = s.get_char(p);
            if !(c == ',' || c == '}' || c == ']' || ws_char(c)) {
                p = p + 1;
                continue ;
            }
        }
        return p;
    }
}

/// Scans past `depth` unmatched open brackets.
fn skip_composite(s: &str, n: usize, pos: usize) -> (r: Option<usize>)
    requires
        n == s@.len(),
        pos <= n,
    ensures
        match spec_skip_composite(s@, pos as int, 1, false, false) {
            Some(q) => r matches Some(rq) && rq as int == q && pos < rq <= n,
            None => r is None,
        },
{
    let mut p: usize = pos;
    let mut depth: u128 = 1;
    let mut in_str: bool = false;
    let mut esc: bool = false;
    loop
        invariant
            n == s@.len(),
            pos <= p <= n,
            1 <= depth,
            depth <= p - pos + 1,
            !in_str ==> !esc,
            spec_skip_composite(s@, pos as int, 1, false, false) == spec_skip_composite(
                s@,
                p as int,
                depth as int,
                in_str,
                esc,
            ),
        decreases n - p,
    {
        let ghost gp = p as int;
        let ghost gd = depth as int;
        let ghost gis = in_str;
        let ghost ge = esc;
        if p >= n {
            return None;
        }
        let c = s.get_char(p);
        if in_str {
            if esc {
                esc = false;
            } else if c == '\\' {
                esc = true;
            } else if c == '"' {
                in_str = false;
            }
            p = p + 1;
        } else if c == '"' {
            in_str = true;
            p = p + 1;
        } else if c == '{' || c == '[' {
            depth = depth + 1;
            p = p + 1;
        } else if c == '}' || c == ']' {
            if depth <= 1 {
                return Some(p + 1);
            } else {
                depth = depth - 1;
                p = p + 1;
            }
        } else {
            p = p + 1;
        }
        proof {
            assert(spec_skip_composite(s@, gp, gd, gis, ge) == spec_skip_composite(
                s@,
                p as int,
                depth as int,
                in_str,
                esc,
            ));
        }
    }
}

/// Skips one whole value of any shape.
fn skip_value(s: &str, n: usize, pos: usize) -> (r: Option<usize>)
    requires
        n == s@.len(),
        pos <= n,
    ensures
        match spec_skip_value(s@, pos as int) {
            Some(q) => r matches Some(rq) && rq as int == q && pos < rq <= n,
            None => r is None,
        },
{
    if pos >= n {
        return None;
    }
    let c = s.get_char(pos);
    if c == '"' {
        scan_string(s, n, pos + 1)
    } else if c == '{' || c == '[' {
        skip_composite(s, n, pos + 1)
    } else {
        let q = scan_prim(s, n, pos);
        if q == pos {
            None
        } else {
            Some(q)
        }
    }
}

/// Tests whether `lit` stands at `pos`.
fn match_lit(s: &str, n: usize, pos: usize, lit: &str, litn: usize) -> (r: bool)
    requires
        n == s@.len(),
        pos <= n,
        litn == lit@.len(),
    ensures
        r == has_lit(s@, pos as int, lit@),
{
    if litn > n - pos {
        return false;
    }
    let mut i: usize = 0;
    while i < litn
        invariant
            n == s@.len(),
            litn == lit@.len(),
            pos + litn <= n,
            i <= litn,
            forall|j: int| 0 <= j < i ==> s@[pos + j] == lit@[j],
        decreases litn - i,
    {
        if s.get_char(pos + i) != lit.get_char(i) {
            proof {
                assert(s@.subrange(pos as int, pos as int + lit@.len())[i as int] == s@[pos + i]);
            }
            return false;
        }
        i = i + 1;
    }
    proof {
        assert(s@.subrange(pos as int, pos as int + lit@.len()) =~= lit@);
    }
    true
}

/// Tests whether `s[start..end]` equals `lit`.
fn range_eq(s: &str, n: usize, start: usize, end: usize, lit: &str, litn: usize) -> (r: bool)
    requires
        n == s@.len(),
        start <= end <= n,
        litn == lit@.len(),
    ensures
        r == (s@.subrange(start as int, end as int) == lit@),
{
    if end - start != litn {
        proof {
            assert(s@.subrange(start as int, end as int).len() == end - start);
        }
        return false;
    }
    let r = match_lit(s, n, start, lit, litn);
    proof {
        if r {
            assert(s@.subrange(start as int, start as int + lit@.len()) =~= s@.subrange(
                start as int,
                end as int,
            ));
        } else {
            assert(s@.subrange(start as int, start as int + lit@.len()) =~= s@.subrange(
                start as int,
                end as int,
            ));
        }
    }
    r
}

/// Accumulates digits with saturation.
fn take_digits(s: &str, n: usize, pos: usize, acc0: i128) -> (r: (i128, usize))
    requires
        n == s@.len(),
        pos <= n,
        0 <= acc0 <= DIG_CAP + 1,
    ensures
        (r.0 as int, r.1 as int) == spec_digits(s@, pos as int, acc0 as int),
        pos <= r.1 <= n,
        0 <= r.0 <= DIG_CAP + 1,
{
    let mut p: usize = pos;
    let mut acc: i128 = acc0;
    loop
        invariant
            n == s@.len(),
            pos <= p <= n,
            0 <= acc <= DIG_CAP + 1,
            spec_digits(s@, pos as int, acc0 as int) == spec_digits(s@, p as int, acc as int),
        decreases n - p,
    {
        if p < n {
            let c = s.get_char(p);
            let u = c as u32;
            if 48 <= u && u <= 57 {
                let d: i128 = (u - 48) as i128;
                let grown: i128 = acc * 10 + d;
                acc = if grown > DIG_CAP {
                    DIG_CAP + 1
                } else {
                    grown
                };
                p = p + 1;
                continue ;
            }
        }
        return (acc, p);
    }
}

/// Ten to the `k`, executable.
fn pow10_exec(k: u32) -> (r: i128)
    requires
        k <= 30,
    ensures
        r as int == pow10(k as int),
        1 <= r <= DIG_CAP,
    decreases k,
{
    proof {
        lemma_pow10_le(k as int, 30);
        lemma_pow10_30();
    }
    if k == 0 {
        1
    } else {
        let sub = pow10_exec(k - 1);
        10 * sub
    }
}

/// `pow10` grows with its argument.
proof fn lemma_pow10_le(a: int, b: int)
    requires
        a <= b,
    ensures
        pow10(a) <= pow10(b),
        1 <= pow10(a),
    decreases b - a,
{
    if a < b {
        lemma_pow10_le(a, b - 1);
    } else {
        lemma_pow10_pos(a);
    }
    lemma_pow10_pos(a);
    lemma_pow10_pos(b);
    if a < b {
        lemma_pow10_le(a + 1, b);
    }
}

/// `pow10` is positive.
proof fn lemma_pow10_pos(k: int)
    ensures
        1 <= pow10(k),
    decreases (if k >= 0 { k } else { 0 }),
{
    if k > 0 {
        lemma_pow10_pos(k - 1);
    }
}

/// The concrete value of `pow10(30)`.
proof fn lemma_pow10_30()
    ensures
        pow10(30) == DIG_CAP as int,
{
    reveal_with_fuel(pow10, 32);
}

/// Parses one number into fixed-point.
#[verifier::rlimit(100)]
fn parse_number(s: &str, n: usize, pos: usize) -> (r: Result<(i64, usize), DecodeError>)
    requires
        n == s@.len(),
        pos <= n,
    ensures
        match spec_number(s@, pos as int) {
            Ok((v, q)) => r matches Ok((rv, rq)) && rv as int == v && rq as int == q && pos < rq
                <= n && abs_val(v) <= MAX_NUM as int,
            Err(e) => r == Err::<(i64, usize), DecodeError>(e),
        },
{
    let neg = pos < n && s.get_char(pos) == '-';
    let p0: usize = if neg {
        pos + 1
    } else {
        pos
    };
    let (m1, p1) = take_digits(s, n, p0, 0);
    if p1 == p0 {
        return Err(DecodeError::ExpectedNumber);
    }
    let has_frac = p1 < n && s.get_char(p1) == '.';
    let (m2, p2) = if has_frac {
        take_digits(s, n, p1 + 1, m1)
    } else {
        (m1, p1)
    };
    if has_frac && p2 == p1 + 1 {
        return Err(DecodeError::ExpectedNumber);
    }
    let fraclen: usize = if has_frac {
        p2 - (p1 + 1)
    } else {
        0
    };
    let has_exp = p2 < n && (s.get_char(p2) == 'e' || s.get_char(p2) == 'E');
    let eneg = has_exp && p2 + 1 < n && s.get_char(p2 + 1) == '-';
    let p3: usize = if !has_exp {
        p2
    } else if p2 + 1 < n && (s.get_char(p2 + 1) == '-' || s.get_char(p2 + 1) == '+') {
        p2 + 2
    } else {
        p2 + 1
    };
    let (emag, p4) = if has_exp {
        take_digits(s, n, p3, 0)
    } else {
        (0, p3)
    };
    if has_exp && p4 == p3 {
        return Err(DecodeError::ExpectedNumber);
    }
    let ghost e: int = if eneg {
        -(emag as int)
    } else {
        emag as int
    };
    // fixed_of_parts, executable
    let mv: Option<i128> = if m2 == 0 {
        Some(0)
    } else if m2 > DIG_CAP {
        None
    } else {
        // p = e + 4 - fraclen; with |e| <= DIG_CAP + 1 the sign decides the branch
        if !eneg {
            // p = emag + 4 - fraclen
            if emag + 4 >= fraclen as i128 {
                let p: i128 = emag + 4 - fraclen as i128;
                if p > 11 {
                    None
                } else {
                    if m2 > MAX_NUM as i128 {
                        proof {
                            lemma_pow10_pos(p as int);
                            assert(m2 * pow10(p as int) >= m2) by (nonlinear_arith)
                                requires
                                    m2 >= 1,
                                    pow10(p as int) >= 1,
                            ;
                        }
                        None
                    } else {
                        let w = pow10_exec(p as u32);
                        proof {
                            lemma_pow10_le(p as int, 11);
                            reveal_with_fuel(pow10, 13);
                            assert(m2 * (w as int) <= MAX_NUM as int * 100_000_000_000int)
                                by (nonlinear_arith)
                                requires
                                    0 <= m2 <= MAX_NUM as int,
                                    0 <= w as int <= 100_000_000_000int,
                            ;
                            assert(m2 * (w as int) >= 0) by (nonlinear_arith)
                                requires
                                    0 <= m2,
                                    0 <= w as int,
                            ;
                        }
                        let v = m2 * w;
                        if v <= MAX_NUM as i128 {
                            Some(v)
                        } else {
                            None
                        }
                    }
                }
            } else {
                // p negative although the exponent is nonnegative: short fraction shift
                let np: i128 = fraclen as i128 - emag - 4;
                if np > 30 {
                    proof {
                        lemma_div_small_q(m2 as int, np as int);
                    }
                    Some(0)
                } else {
                    let w = pow10_exec(np as u32);
                    proof {
                        vstd::arithmetic::div_mod::lemma_div_nonincreasing(m2 as int, w as int);
                        vstd::arithmetic::div_mod::lemma_div_pos_is_pos(m2 as int, w as int);
                    }
                    let v = ((m2 as u128) / (w as u128)) as i128;
                    if v <= MAX_NUM as i128 {
                        Some(v)
                    } else {
                        None
                    }
                }
            }
        } else {
            // exponent negative: p = -emag + 4 - fraclen
            if 4 >= emag + fraclen as i128 {
                let p: i128 = 4 - emag - fraclen as i128;
                let w = pow10_exec(p as u32);
                proof {
                    lemma_pow10_le(p as int, 4);
                    reveal_with_fuel(pow10, 6);
                    assert(m2 * (w as int) <= DIG_CAP as int * 10000) by (nonlinear_arith)
                        requires
                            0 <= m2 <= DIG_CAP as int,
                            0 <= w as int <= 10000,
                    ;
                    assert(m2 * (w as int) >= 0) by (nonlinear_arith)
                        requires
                            0 <= m2,
                            0 <= w as int,
                    ;
                }
                let v = m2 * w;
                if v <= MAX_NUM as i128 {
                    Some(v)
                } else {
                    None
                }
            } else {
                let np: i128 = emag + fraclen as i128 - 4;
                if np > 30 {
                    proof {
                        lemma_div_small_q(m2 as int, np as int);
                    }
                    Some(0)
                } else {
                    let w = pow10_exec(np as u32);
                    proof {
                        vstd::arithmetic::div_mod::lemma_div_nonincreasing(m2 as int, w as int);
                        vstd::arithmetic::div_mod::lemma_div_pos_is_pos(m2 as int, w as int);
                    }
                    let v = ((m2 as u128) / (w as u128)) as i128;
                    if v <= MAX_NUM as i128 {
                        Some(v)
                    } else {
                        None
                    }
                }
            }
        }
    };
    proof {
        assert(fixed_of_parts(m2 as int, fraclen as int, e) == match mv {
            Some(v) => Some(v as int),
            None => None::<int>,
        });
    }
    match mv {
        Some(v) => {
            let sv: i64 = if neg {
                -(v as i64)
            } else {
                v as i64
            };
            Ok((sv, p4))
        },
        None => Err(DecodeError::NumberOutOfRange),
    }
}

/// A mantissa of at most `DIG_CAP` vanishes under division by more than
/// thirty decimal places.
proof fn lemma_div_small_q(m: int, np: int)
    requires
        1 <= m <= DIG_CAP as int,
        np > 30,
    ensures
        m / pow10(np) == 0,
{
    lemma_pow10_le(31, np);
    lemma_pow10_30();
    assert(pow10(31) == 10 * pow10(30));
    vstd::arithmetic::div_mod::lemma_basic_div(m, pow10(np));
}

/// Termination guard for the object and array loops: a continuation
/// position that did not move forward is pushed one step.  The executable
/// parser proves that the guard never fires.
pub open spec fn wind(s: Seq<char>, pos: int, q: int) -> int {
    if pos < q <= s.len() {
        q
    } else {
        pos + 1
    }
}

/// The zoom preset named by a raw string value.
pub open spec fn zoom_of(raw: Seq<char>) -> ZoomMode {
    if raw == "close"@ {
        ZoomMode::Close
    } else if raw == "normal"@ {
        ZoomMode::Normal
    } else if raw == "wide"@ {
        ZoomMode::Wide
    } else {
        ZoomMode::Default
    }
}

/// Partly decoded hole, ghost side.
pub struct HoleAccModel {
    pub dx: Option<int>,
    pub dy: Option<int>,
    pub nominal: Option<int>,
    pub cut_seen: bool,
    pub cut: Option<int>,
    pub spec_seen: bool,
    pub spec_dia: Option<int>,
    pub selected: Option<bool>,
}

/// The accumulator a hole parse starts from.
pub open spec fn hole_acc_empty() -> HoleAccModel {
    HoleAccModel {
        dx: None,
        dy: None,
        nominal: None,
        cut_seen: false,
        cut: None,
        spec_seen: false,
        spec_dia: None,
        selected: None,
    }
}

/// The hole a finished accumulator yields; `None` when a required field is
/// missing.
pub open spec fn finish_hole(a: HoleAccModel) -> Option<HoleModel> {
    if a.dx is Some && a.dy is Some && a.nominal is Some && a.selected is Some {
        Some(
            HoleModel {
                dx: a.dx->Some_0,
                dy: a.dy->Some_0,
                nominal: a.nominal->Some_0,
                cut: a.cut,
                spec_dia: a.spec_dia,
                selected: a.selected->Some_0,
            },
        )
    } else {
        None
    }
}

/// One key/value member of a hole object: the updated accumulator and the
/// position past the value.
pub open spec fn spec_hole_field(s: Seq<char>, pv: int, key: Seq<char>, a: HoleAccModel) -> Result<
    (HoleAccModel, int),
    DecodeError,
> {
    if key == "dx"@ {
        if a.dx is Some {
            Err(DecodeError::DuplicateField)
        } else {
            match spec_number(s, pv) {
                Ok((v, q)) => Ok((HoleAccModel { dx: Some(v), ..a }, q)),
                Err(e) => Err(e),
            }
        }
    } else if key == "dy"@ {
        if a.dy is Some {
            Err(DecodeError::DuplicateField)
        } else {
            match spec_number(s, pv) {
                Ok((v, q)) => Ok((HoleAccModel { dy: Some(v), ..a }, q)),
                Err(e) => Err(e),
            }
        }
    } else if key == "nominal"@ {
        if a.nominal is Some {
            Err(DecodeError::DuplicateField)
        } else {
            match spec_number(s, pv) {
                Ok((v, q)) => Ok((HoleAccModel { nominal: Some(v), ..a }, q)),
                Err(e) => Err(e),
            }
        }
    } else if key == "cut"@ {
        if a.cut_seen {
            Err(DecodeError::DuplicateField)
        } else if has_lit(s, pv, "null"@) {
            Ok((HoleAccModel { cut_seen: true, cut: None, ..a }, pv + 4))
        } else {
            match spec_number(s, pv) {
                Ok((v, q)) => Ok((HoleAccModel { cut_seen: true, cut: Some(v), ..a }, q)),
                Err(e) => Err(e),
            }
        }
    } else if key == "spec"@ {
        if a.spec_seen {
            Err(DecodeError::DuplicateField)
        } else if has_lit(s, pv, "null"@) {
            Ok((HoleAccModel { spec_seen: true, spec_dia: None, ..a }, pv + 4))
        } else {
            match spec_number(s, pv) {
                Ok((v, q)) => Ok((HoleAccModel { spec_seen: true, spec_dia: Some(v), ..a }, q)),
                Err(e) => Err(e),
            }
        }
    } else if key == "selected"@ {
        if a.selected is Some {
            Err(DecodeError::DuplicateField)
        } else if has_lit(s, pv, "true"@) {
            Ok((HoleAccModel { selected: Some(true), ..a }, pv + 4))
        } else if has_lit(s, pv, "false"@) {
            Ok((HoleAccModel { selected: Some(false), ..a }, pv + 5))
        } else {
            Err(DecodeError::ExpectedBool)
        }
    } else {
        match spec_skip_value(s, pv) {
            Some(q) => Ok((a, q)),
            None => Err(DecodeError::ExpectedValue),
        }
    }
}

/// The members of a hole object from `pos` (just past `{` or past the last
/// value): the finished hole and the position past its `}`.
pub open spec fn spec_parse_hole(s: Seq<char>, pos: int, a: HoleAccModel, first: bool) -> Result<
    (HoleModel, int),
    DecodeError,
>
    decreases s.len() - pos,
{
    let p = spec_skip_ws(s, pos);
    if !(0 <= p < s.len()) {
        Err(DecodeError::UnexpectedEnd)
    } else if s[p] == '}' {
        match finish_hole(a) {
            Some(h) => Ok((h, p + 1)),
            None => Err(DecodeError::MissingField),
        }
    } else {
        let sep_ok = first || s[p] == ',';
        let p2 = if first {
            p
        } else {
            spec_skip_ws(s, p + 1)
        };
        if !sep_ok {
            Err(DecodeError::ExpectedSeparator)
        } else if !(0 <= p2 < s.len()) {
            Err(DecodeError::UnexpectedEnd)
        } else if s[p2] != '"' {
            Err(DecodeError::ExpectedKey)
        } else {
            match spec_scan_string(s, p2 + 1) {
                None => Err(DecodeError::UnexpectedEnd),
                Some(kend) => {
                    let key = s.subrange(p2 + 1, kend - 1);
                    let pc = spec_skip_ws(s, kend);
                    if !(0 <= pc < s.len() && s[pc] == ':') {
                        Err(DecodeError::ExpectedColon)
                    } else {
                        let pv = spec_skip_ws(s, pc + 1);
                        match spec_hole_field(s, pv, key, a) {
                            Err(e) => Err(e),
                            Ok((a2, q)) => spec_parse_hole(s, wind(s, pos, q), a2, false),
                        }
                    }
                },
            }
        }
    }
}

/// The elements of the hole array from `pos` (just past `[` or past the
/// last element): the holes and the position past the `]`.
pub open spec fn spec_parse_holes(s: Seq<char>, pos: int, acc: Seq<HoleModel>, first: bool) -> Result<
    (Seq<HoleModel>, int),
    DecodeError,
>
    decreases s.len() - pos,
{
    let p = spec_skip_ws(s, pos);
    if !(0 <= p < s.len()) {
        Err(DecodeError::UnexpectedEnd)
    } else if s[p] == ']' {
        Ok((acc, p + 1))
    } else {
        let sep_ok = first || s[p] == ',';
        let p2 = if first {
            p
        } else {
            spec_skip_ws(s, p + 1)
        };
        if !sep_ok {
            Err(DecodeError::ExpectedSeparator)
        } else if !(0 <= p2 < s.len()) {
            Err(DecodeError::UnexpectedEnd)
        } else if s[p2] != '{' {
            Err(DecodeError::ExpectedObject)
        } else {
            match spec_parse_hole(s, p2 + 1, hole_acc_empty(), true) {
                Err(e) => Err(e),
                Ok((h, q)) => spec_parse_holes(s, wind(s, pos, q), acc.push(h), false),
            }
        }
    }
}

/// Partly decoded state, ghost side.
pub struct StateAccModel {
    pub width: Option<int>,
    pub height: Option<int>,
    pub depth: Option<int>,
    pub show_ghost: Option<bool>,
    pub show_dims: Option<bool>,
    pub zoom: Option<ZoomMode>,
    pub holes: Option<Seq<HoleModel>>,
}

/// The accumulator a state parse starts from.
pub open spec fn state_acc_empty() -> StateAccModel {
    StateAccModel {
        width: None,
        height: None,
        depth: None,
        show_ghost: None,
        show_dims: None,
        zoom: None,
        holes: None,
    }
}

/// The state a finished accumulator yields: every required field present
/// and the panel dimensions positive.
pub open spec fn finish_state(a: StateAccModel) -> Result<StateModel, DecodeError> {
    if a.width is Some && a.height is Some && a.depth is Some && a.show_ghost is Some
        && a.show_dims is Some && a.zoom is Some && a.holes is Some {
        if a.width->Some_0 <= 0 || a.height->Some_0 <= 0 {
            Err(DecodeError::NonPositiveSize)
        } else {
            Ok(
                StateModel {
                    width: a.width->Some_0,
                    height: a.height->Some_0,
                    depth: a.depth->Some_0,
                    show_ghost: a.show_ghost->Some_0,
                    show_dims: a.show_dims->Some_0,
                    zoom: a.zoom->Some_0,
                    holes: a.holes->Some_0,
                },
            )
        }
    } else {
        Err(DecodeError::MissingField)
    }
}

/// One key/value member of the state object.
pub open spec fn spec_state_field(s: Seq<char>, pv: int, key: Seq<char>, a: StateAccModel) -> Result<
    (StateAccModel, int),
    DecodeError,
> {
    if key == "width"@ {
        if a.width is Some {
            Err(DecodeError::DuplicateField)
        } else {
            match spec_number(s, pv) {
                Ok((v, q)) => Ok((StateAccModel { width: Some(v), ..a }, q)),
                Err(e) => Err(e),
            }
        }
    } else if key == "height"@ {
        if a.height is Some {
            Err(DecodeError::DuplicateField)
        } else {
            match spec_number(s, pv) {
                Ok((v, q)) => Ok((StateAccModel { height: Some(v), ..a }, q)),
                Err(e) => Err(e),
            }
        }
    } else if key == "depth"@ {
        if a.depth is Some {
            Err(DecodeError::DuplicateField)
        } else {
            match spec_number(s, pv) {
                Ok((v, q)) => Ok((StateAccModel { depth: Some(v), ..a }, q)),
                Err(e) => Err(e),
            }
        }
    } else if key == "showGhost"@ {
        if a.show_ghost is Some {
            Err(DecodeError::DuplicateField)
        } else if has_lit(s, pv, "true"@) {
            Ok((StateAccModel { show_ghost: Some(true), ..a }, pv + 4))
        } else if has_lit(s, pv, "false"@) {
            Ok((StateAccModel { show_ghost: Some(false), ..a }, pv + 5))
        } else {
            Err(DecodeError::ExpectedBool)
        }
    } else if key == "showDims"@ {
        if a.show_dims is Some {
            Err(DecodeError::DuplicateField)
        } else if has_lit(s, pv, "true"@) {
            Ok((StateAccModel { show_dims: Some(true), ..a }, pv + 4))
        } else if has_lit(s, pv, "false"@) {
            Ok((StateAccModel { show_dims: Some(false), ..a }, pv + 5))
        } else {
            Err(DecodeError::ExpectedBool)
        }
    } else if key == "zoomMode"@ {
        if a.zoom is Some {
            Err(DecodeError::DuplicateField)
        } else if 0 <= pv < s.len() && s[pv] == '"' {
            match spec_scan_string(s, pv + 1) {
                None => Err(DecodeError::UnexpectedEnd),
                Some(e) => Ok(
                    (StateAccModel { zoom: Some(zoom_of(s.subrange(pv + 1, e - 1))), ..a }, e),
                ),
            }
        } else {
            Err(DecodeError::ExpectedString)
        }
    } else if key == "holes"@ {
        if a.holes is Some {
            Err(DecodeError::DuplicateField)
        } else if 0 <= pv < s.len() && s[pv] == '[' {
            match spec_parse_holes(s, pv + 1, Seq::empty(), true) {
                Err(e) => Err(e),
                Ok((hs, q)) => Ok((StateAccModel { holes: Some(hs), ..a }, q)),
            }
        } else {
            Err(DecodeError::ExpectedArray)
        }
    } else {
        match spec_skip_value(s, pv) {
            Some(q) => Ok((a, q)),
            None => Err(DecodeError::ExpectedValue),
        }
    }
}

/// The members of the state object from `pos` (just past `{` or past the
/// last value): the finished state and the position past its `}`.
pub open spec fn spec_parse_state(s: Seq<char>, pos: int, a: StateAccModel, first: bool) -> Result<
    (StateModel, int),
    DecodeError,
>
    decreases s.len() - pos,
{
    let p = spec_skip_ws(s, pos);
    if !(0 <= p < s.len()) {
        Err(DecodeError::UnexpectedEnd)
    } else if s[p] == '}' {
        match finish_state(a) {
            Ok(st) => Ok((st, p + 1)),
            Err(e) => Err(e),
        }
    } else {
        let sep_ok = first || s[p] == ',';
        let p2 = if first {
            p
        } else {
            spec_skip_ws(s, p + 1)
        };
        if !sep_ok {
            Err(DecodeError::ExpectedSeparator)
        } else if !(0 <= p2 < s.len()) {
            Err(DecodeError::UnexpectedEnd)
        } else if s[p2] != '"' {
            Err(DecodeError::ExpectedKey)
        } else {
            match spec_scan_string(s, p2 + 1) {
                None => Err(DecodeError::UnexpectedEnd),
                Some(kend) => {
                    let key = s.subrange(p2 + 1, kend - 1);
                    let pc = spec_skip_ws(s, kend);
                    if !(0 <= pc < s.len() && s[pc] == ':') {
                        Err(DecodeError::ExpectedColon)
                    } else {
                        let pv = spec_skip_ws(s, pc + 1);
                        match spec_state_field(s, pv, key, a) {
                            Err(e) => Err(e),
                            Ok((a2, q)) => spec_parse_state(s, wind(s, pos, q), a2, false),
                        }
                    }
                },
            }
        }
    }
}

/// The decode of a whole payload: leading whitespace, one state object,
/// trailing whitespace, nothing else.
pub open spec fn spec_decode(s: Seq<char>) -> Result<StateModel, DecodeError> {
    let p = spec_skip_ws(s, 0);
    if !(0 <= p < s.len() && s[p] == '{') {
        Err(DecodeError::ExpectedObject)
    } else {
        match spec_parse_state(s, p + 1, state_acc_empty(), true) {
            Err(e) => Err(e),
            Ok((st, q)) => {
                let t = spec_skip_ws(s, q);
                if t < s.len() {
                    Err(DecodeError::TrailingInput)
                } else {
                    Ok(st)
                }
            },
        }
    }
}

/// Partly decoded hole, executable side.
#[derive(Clone, Copy)]
pub struct HoleAcc {
    pub dx: Option<i64>,
    pub dy: Option<i64>,
    pub nominal: Option<i64>,
    pub cut_seen: bool,
    pub cut: Option<i64>,
    pub spec_seen: bool,
    pub spec_dia: Option<i64>,
    pub selected: Option<bool>,
}

impl View for HoleAcc {
    type V = HoleAccModel;

    open spec fn view(&self) -> HoleAccModel {
        HoleAccModel {
            dx: opt_val(self.dx),
            dy: opt_val(self.dy),
            nominal: opt_val(self.nominal),
            cut_seen: self.cut_seen,
            cut: opt_val(self.cut),
            spec_seen: self.spec_seen,
            spec_dia: opt_val(self.spec_dia),
            selected: self.selected,
        }
    }
}

/// Every number held by a hole accumulator is range-bounded.
spec fn hole_acc_wf(a: HoleAccModel) -> bool {
    &&& (a.dx matches Some(v) ==> abs_val(v) <= MAX_NUM as int)
    &&& (a.dy matches Some(v) ==> abs_val(v) <= MAX_NUM as int)
    &&& (a.nominal matches Some(v) ==> abs_val(v) <= MAX_NUM as int)
    &&& (a.cut matches Some(v) ==> abs_val(v) <= MAX_NUM as int)
    &&& (a.spec_dia matches Some(v) ==> abs_val(v) <= MAX_NUM as int)
}

/// One member of a hole object, executable.
fn hole_field(s: &str, n: usize, pv: usize, ks: usize, ke: usize, a: HoleAcc) -> (r: Result<
    (HoleAcc, usize),
    DecodeError,
>)
    requires
        n == s@.len(),
        pv <= n,
        ks <= ke <= n,
        hole_acc_wf(a@),
    ensures
        match spec_hole_field(s@, pv as int, s@.subrange(ks as int, ke as int), a@) {
            Ok((a2, q)) => r matches Ok((ra, rq)) && ra@ == a2 && rq as int == q && pv < rq <= n
                && hole_acc_wf(a2),
            Err(e) => r == Err::<(HoleAcc, usize), DecodeError>(e),
        },
{
    proof {
        reveal_strlit("dx");
        reveal_strlit("dy");
        reveal_strlit("nominal");
        reveal_strlit("cut");
        reveal_strlit("spec");
        reveal_strlit("selected");
        reveal_strlit("null");
        reveal_strlit("true");
        reveal_strlit("false");
    }
    if range_eq(s, n, ks, ke, "dx", 2) {
        if a.dx.is_some() {
            Err(DecodeError::DuplicateField)
        } else {
            match parse_number(s, n, pv) {
                Ok((v, q)) => Ok((HoleAcc { dx: Some(v), ..a }, q)),
                Err(e) => Err(e),
            }
        }
    } else if range_eq(s, n, ks, ke, "dy", 2) {
        if a.dy.is_some() {
            Err(DecodeError::DuplicateField)
        } else {
            match parse_number(s, n, pv) {
                Ok((v, q)) => Ok((HoleAcc { dy: Some(v), ..a }, q)),
                Err(e) => Err(e),
            }
        }
    } else if range_eq(s, n, ks, ke, "nominal", 7) {
        if a.nominal.is_some() {
            Err(DecodeError::DuplicateField)
        } else {
            match parse_number(s, n, pv) {
                Ok((v, q)) => Ok((HoleAcc { nominal: Some(v), ..a }, q)),
                Err(e) => Err(e),
            }
        }
    } else if range_eq(s, n, ks, ke, "cut", 3) {
        if a.cut_seen {
            Err(DecodeError::DuplicateField)
        } else if match_lit(s, n, pv, "null", 4) {
            Ok((HoleAcc { cut_seen: true, cut: None, ..a }, pv + 4))
        } else {
            match parse_number(s, n, pv) {
                Ok((v, q)) => Ok((HoleAcc { cut_seen: true, cut: Some(v), ..a }, q)),
                Err(e) => Err(e),
            }
        }
    } else if range_eq(s, n, ks, ke, "spec", 4) {
        if a.spec_seen {
            Err(DecodeError::DuplicateField)
        } else if match_lit(s, n, pv, "null", 4) {
            Ok((HoleAcc { spec_seen: true, spec_dia: None, ..a }, pv + 4))
        } else {
            match parse_number(s, n, pv) {
                Ok((v, q)) => Ok((HoleAcc { spec_seen: true, spec_dia: Some(v), ..a }, q)),
                Err(e) => Err(e),
            }
        }
    } else if range_eq(s, n, ks, ke, "selected", 8) {
        if a.selected.is_some() {
            Err(DecodeError::DuplicateField)
        } else if match_lit(s, n, pv, "true", 4) {
            Ok((HoleAcc { selected: Some(true), ..a }, pv + 4))
        } else if match_lit(s, n, pv, "false", 5) {
            Ok((HoleAcc { selected: Some(false), ..a }, pv + 5))
        } else {
            Err(DecodeError::ExpectedBool)
        }
    } else {
        match skip_value(s, n, pv) {
            Some(q) => Ok((a, q)),
            None => Err(DecodeError::ExpectedValue),
        }
    }
}

/// One hole object from `pos` (just past its `{`), executable.
fn parse_hole(s: &str, n: usize, pos: usize) -> (r: Result<(Hole, usize), DecodeError>)
    requires
        n == s@.len(),
        pos <= n,
    ensures
        match spec_parse_hole(s@, pos as int, hole_acc_empty(), true) {
            Ok((h, q)) => r matches Ok((rh, rq)) && rh@ == h && rq as int == q && pos < rq <= n
                && hole_wf(h),
            Err(e) => r == Err::<(Hole, usize), DecodeError>(e),
        },
{
    let mut p: usize = pos;
    let mut a = HoleAcc {
        dx: None,
        dy: None,
        nominal: None,
        cut_seen: false,
        cut: None,
        spec_seen: false,
        spec_dia: None,
        selected: None,
    };
    let mut first: bool = true;
    loop
        invariant
            n == s@.len(),
            pos <= p <= n,
            hole_acc_wf(a@),
            spec_parse_hole(s@, pos as int, hole_acc_empty(), true) == spec_parse_hole(
                s@,
                p as int,
                a@,
                first,
            ),
        decreases n - p,
    {
        let pw = skip_ws(s, n, p);
        if pw >= n {
            return Err(DecodeError::UnexpectedEnd);
        }
        let c = s.get_char(pw);
        if c == '}' {
            match (a.dx, a.dy, a.nominal, a.selected) {
                (Some(dxv), Some(dyv), Some(nomv), Some(selv)) => {
                    let h = Hole {
                        dx: dxv,
                        dy: dyv,
                        nominal: nomv,
                        cut: a.cut,
                        spec_dia: a.spec_dia,
                        selected: selv,
                    };
                    return Ok((h, pw + 1));
                },
                _ => {
                    return Err(DecodeError::MissingField);
                },
            }
        }
        let p2: usize = if first {
            pw
        } else if c == ',' {
            skip_ws(s, n, pw + 1)
        } else {
            return Err(DecodeError::ExpectedSeparator);
        };
        if p2 >= n {
            return Err(DecodeError::UnexpectedEnd);
        }
        if s.get_char(p2) != '"' {
            return Err(DecodeError::ExpectedKey);
        }
        let kend: usize = match scan_string(s, n, p2 + 1) {
            Some(k) => k,
            None => {
                return Err(DecodeError::UnexpectedEnd);
            },
        };
        let pc = skip_ws(s, n, kend);
        if pc >= n {
            return Err(DecodeError::ExpectedColon);
        }
        if s.get_char(pc) != ':' {
            return Err(DecodeError::ExpectedColon);
        }
        let pv = skip_ws(s, n, pc + 1);
        match hole_field(s, n, pv, p2 + 1, kend - 1, a) {
            Err(e) => {
                return Err(e);
            },
            Ok((a2, q)) => {
                proof {
                    assert(wind(s@, p as int, q as int) == q as int);
                }
                a = a2;
                first = false;
                p = q;
            },
        }
    }
}

/// The hole array from `pos` (just past its `[`), executable.
fn parse_holes(s: &str, n: usize, pos: usize) -> (r: Result<(Vec<Hole>, usize), DecodeError>)
    requires
        n == s@.len(),
        pos <= n,
    ensures
        match spec_parse_holes(s@, pos as int, Seq::empty(), true) {
            Ok((hs, q)) => r matches Ok((rv, rq)) && rv@.map_values(|h: Hole| h@) == hs
                && rq as int == q && pos < rq <= n && (forall|i: int|
                0 <= i < hs.len() ==> hole_wf(#[trigger] hs[i])),
            Err(e) => r == Err::<(Vec<Hole>, usize), DecodeError>(e),
        },
{
    let mut p: usize = pos;
    let mut vec: Vec<Hole> = Vec::new();
    let mut first: bool = true;
    proof {
        assert(vec@.map_values(|h: Hole| h@) =~= Seq::<HoleModel>::empty());
    }
    loop
        invariant
            n == s@.len(),
            pos <= p <= n,
            forall|i: int| 0 <= i < vec@.len() ==> hole_wf(#[trigger] vec@[i]@),
            spec_parse_holes(s@, pos as int, Seq::empty(), true) == spec_parse_holes(
                s@,
                p as int,
                vec@.map_values(|h: Hole| h@),
                first,
            ),
        decreases n - p,
    {
        let pw = skip_ws(s, n, p);
        if pw >= n {
            return Err(DecodeError::UnexpectedEnd);
        }
        let c = s.get_char(pw);
        if c == ']' {
            return Ok((vec, pw + 1));
        }
        let p2: usize = if first {
            pw
        } else if c == ',' {
            skip_ws(s, n, pw + 1)
        } else {
            return Err(DecodeError::ExpectedSeparator);
        };
        if p2 >= n {
            return Err(DecodeError::UnexpectedEnd);
        }
        if s.get_char(p2) != '{' {
            return Err(DecodeError::ExpectedObject);
        }
        match parse_hole(s, n, p2 + 1) {
            Err(e) => {
                return Err(e);
            },
            Ok((h, q)) => {
                proof {
                    assert(wind(s@, p as int, q as int) == q as int);
                }
                let ghost oldmap = vec@.map_values(|hh: Hole| hh@);
                vec.push(h);
                proof {
                    assert(vec@.map_values(|hh: Hole| hh@) =~= oldmap.push(h@));
                }
                first = false;
                p = q;
            },
        }
    }
}

/// Partly decoded state, executable side.
pub struct StateAcc {
    pub width: Option<i64>,
    pub height: Option<i64>,
    pub depth: Option<i64>,
    pub show_ghost: Option<bool>,
    pub show_dims: Option<bool>,
    pub zoom: Option<ZoomMode>,
    pub holes: Option<Vec<Hole>>,
}

impl View for StateAcc {
    type V = StateAccModel;

    open spec fn view(&self) -> StateAccModel {
        StateAccModel {
            width: opt_val(self.width),
            height: opt_val(self.height),
            depth: opt_val(self.depth),
            show_ghost: self.show_ghost,
            show_dims: self.show_dims,
            zoom: self.zoom,
            holes: match self.holes {
                Some(v) => Some(v@.map_values(|h: Hole| h@)),
                None => None,
            },
        }
    }
}

/// Every number held by a state accumulator is range-bounded.
spec fn state_acc_wf(a: StateAccModel) -> bool {
    &&& (a.width matches Some(v) ==> abs_val(v) <= MAX_NUM as int)
    &&& (a.height matches Some(v) ==> abs_val(v) <= MAX_NUM as int)
    &&& (a.depth matches Some(v) ==> abs_val(v) <= MAX_NUM as int)
    &&& (a.holes matches Some(hs) ==> forall|i: int|
        0 <= i < hs.len() ==> hole_wf(#[trigger] hs[i]))
}

/// The zoom preset named by `s[start..end]`.
fn zoom_range(s: &str, n: usize, start: usize, end: usize) -> (z: ZoomMode)
    requires
        n == s@.len(),
        start <= end <= n,
    ensures
        z == zoom_of(s@.subrange(start as int, end as int)),
{
    proof {
        reveal_strlit("close");
        reveal_strlit("normal");
        reveal_strlit("wide");
    }
    if range_eq(s, n, start, end, "close", 5) {
        ZoomMode::Close
    } else if range_eq(s, n, start, end, "normal", 6) {
        ZoomMode::Normal
    } else if range_eq(s, n, start, end, "wide", 4) {
        ZoomMode::Wide
    } else {
        ZoomMode::Default
    }
}

/// One member of the state object, executable.
fn state_field(s: &str, n: usize, pv: usize, ks: usize, ke: usize, a: StateAcc) -> (r: Result<
    (StateAcc, usize),
    DecodeError,
>)
    requires
        n == s@.len(),
        pv <= n,
        ks <= ke <= n,
        state_acc_wf(a@),
    ensures
        match spec_state_field(s@, pv as int, s@.subrange(ks as int, ke as int), a@) {
            Ok((a2, q)) => r matches Ok((ra, rq)) && ra@ == a2 && rq as int == q && pv < rq <= n
                && state_acc_wf(a2),
            Err(e) => r matches Err(re) && re == e,
        },
{
    proof {
        reveal_strlit("width");
        reveal_strlit("height");
        reveal_strlit("depth");
        reveal_strlit("showGhost");
        reveal_strlit("showDims");
        reveal_strlit("zoomMode");
        reveal_strlit("holes");
        reveal_strlit("true");
        reveal_strlit("false");
    }
    if range_eq(s, n, ks, ke, "width", 5) {
        if a.width.is_some() {
            Err(DecodeError::DuplicateField)
        } else {
            match parse_number(s, n, pv) {
                Ok((v, q)) => Ok((StateAcc { width: Some(v), ..a }, q)),
                Err(e) => Err(e),
            }
        }
    } else if range_eq(s, n, ks, ke, "height", 6) {
        if a.height.is_some() {
            Err(DecodeError::DuplicateField)
        } else {
            match parse_number(s, n, pv) {
                Ok((v, q)) => Ok((StateAcc { height: Some(v), ..a }, q)),
                Err(e) => Err(e),
            }
        }
    } else if range_eq(s, n, ks, ke, "depth", 5) {
        if a.depth.is_some() {
            Err(DecodeError::DuplicateField)
        } else {
            match parse_number(s, n, pv) {
                Ok((v, q)) => Ok((StateAcc { depth: Some(v), ..a }, q)),
                Err(e) => Err(e),
            }
        }
    } else if range_eq(s, n, ks, ke, "showGhost", 9) {
        if a.show_ghost.is_some() {
            Err(DecodeError::DuplicateField)
        } else if match_lit(s, n, pv, "true", 4) {
            Ok((StateAcc { show_ghost: Some(true), ..a }, pv + 4))
        } else if match_lit(s, n, pv, "false", 5) {
            Ok((StateAcc { show_ghost: Some(false), ..a }, pv + 5))
        } else {
            Err(DecodeError::ExpectedBool)
        }
    } else if range_eq(s, n, ks, ke, "showDims", 8) {
        if a.show_dims.is_some() {
            Err(DecodeError::DuplicateField)
        } else if match_lit(s, n, pv, "true", 4) {
            Ok((StateAcc { show_dims: Some(true), ..a }, pv + 4))
        } else if match_lit(s, n, pv, "false", 5) {
            Ok((StateAcc { show_dims: Some(false), ..a }, pv + 5))
        } else {
            Err(DecodeError::ExpectedBool)
        }
    } else if range_eq(s, n, ks, ke, "zoomMode", 8) {
        if a.zoom.is_some() {
            Err(DecodeError::DuplicateField)
        } else if pv < n && s.get_char(pv) == '"' {
            match scan_string(s, n, pv + 1) {
                None => Err(DecodeError::UnexpectedEnd),
                Some(e) => {
                    let z = zoom_range(s, n, pv + 1, e - 1);
                    Ok((StateAcc { zoom: Some(z), ..a }, e))
                },
            }
        } else {
            Err(DecodeError::ExpectedString)
        }
    } else if range_eq(s, n, ks, ke, "holes", 5) {
        if a.holes.is_some() {
            Err(DecodeError::DuplicateField)
        } else if pv < n && s.get_char(pv) == '[' {
            match parse_holes(s, n, pv + 1) {
                Err(e) => Err(e),
                Ok((v, q)) => Ok((StateAcc { holes: Some(v), ..a }, q)),
            }
        } else {
            Err(DecodeError::ExpectedArray)
        }
    } else {
        match skip_value(s, n, pv) {
            Some(q) => Ok((a, q)),
            None => Err(DecodeError::ExpectedValue),
        }
    }
}

/// The state object from `pos` (just past its `{`), executable.
fn parse_state(s: &str, n: usize, pos: usize) -> (r: Result<(State, usize), DecodeError>)
    requires
        n == s@.len(),
        pos <= n,
    ensures
        match spec_parse_state(s@, pos as int, state_acc_empty(), true) {
            Ok((st, q)) => r matches Ok((rs, rq)) && rs@ == st && rq as int == q && pos < rq <= n
                && state_wf(st),
            Err(e) => r matches Err(re) && re == e,
        },
{
    let mut p: usize = pos;
    let mut a = StateAcc {
        width: None,
        height: None,
        depth: None,
        show_ghost: None,
        show_dims: None,
        zoom: None,
        holes: None,
    };
    let mut first: bool = true;
    loop
        invariant
            n == s@.len(),
            pos <= p <= n,
            state_acc_wf(a@),
            spec_parse_state(s@, pos as int, state_acc_empty(), true) == spec_parse_state(
                s@,
                p as int,
                a@,
                first,
            ),
        decreases n - p,
    {
        let pw = skip_ws(s, n, p);
        if pw >= n {
            return Err(DecodeError::UnexpectedEnd);
        }
        let c = s.get_char(pw);
        if c == '}' {
            match (a.width, a.height, a.depth, a.show_ghost, a.show_dims, a.zoom, a.holes) {
                (Some(w), Some(h), Some(d), Some(sg), Some(sd), Some(z), Some(hs)) => {
                    if w <= 0 || h <= 0 {
                        return Err(DecodeError::NonPositiveSize);
                    }
                    let st = State {
                        width: w,
                        height: h,
                        depth: d,
                        show_ghost: sg,
                        show_dims: sd,
                        zoom: z,
                        holes: hs,
                    };
                    return Ok((st, pw + 1));
                },
                _ => {
                    return Err(DecodeError::MissingField);
                },
            }
        }
        let p2: usize = if first {
            pw
        } else if c == ',' {
            skip_ws(s, n, pw + 1)
        } else {
            return Err(DecodeError::ExpectedSeparator);
        };
        if p2 >= n {
            return Err(DecodeError::UnexpectedEnd);
        }
        if s.get_char(p2) != '"' {
            return Err(DecodeError::ExpectedKey);
        }
        let kend: usize = match scan_string(s, n, p2 + 1) {
            Some(k) => k,
            None => {
                return Err(DecodeError::UnexpectedEnd);
            },
        };
        let pc = skip_ws(s, n, kend);
        if pc >= n {
            return Err(DecodeError::ExpectedColon);
        }
        if s.get_char(pc) != ':' {
            return Err(DecodeError::ExpectedColon);
        }
        let pv = skip_ws(s, n, pc + 1);
        match state_field(s, n, pv, p2 + 1, kend - 1, a) {
            Err(e) => {
                return Err(e);
            },
            Ok((a2, q)) => {
                proof {
                    assert(wind(s@, p as int, q as int) == q as int);
                }
                a = a2;
                first = false;
                p = q;
            },
        }
    }
}

/// Decodes a payload into a `State`: exactly the state `spec_decode` gives,
/// or exactly its error.  Every state returned is well-formed.
pub fn decode_state(s: &str) -> (r: Result<State, DecodeError>)
    ensures
        match spec_decode(s@) {
            Ok(st) => r matches Ok(rs) && rs@ == st && state_wf(st),
            Err(e) => r matches Err(re) && re == e,
        },
{
    let n = s.unicode_len();
    let p = skip_ws(s, n, 0);
    if p >= n {
        return Err(DecodeError::ExpectedObject);
    }
    if s.get_char(p) != '{' {
        return Err(DecodeError::ExpectedObject);
    }
    match parse_state(s, n, p + 1) {
        Err(e) => Err(e),
        Ok((st, q)) => {
            let t = skip_ws(s, n, q);
            if t < n {
                Err(DecodeError::TrailingInput)
            } else {
                Ok(st)
            }
        },
    }
}

} // verus!
