//! Scalar helpers shared by the geometric types: integer square root and
//! floor division, with exact contracts.

use vstd::prelude::*;
use vstd::arithmetic::div_mod::{
    lemma_fundamental_div_mod, lemma_fundamental_div_mod_converse_div,
    lemma_mod_division_less_than_divisor,
};

verus! {

/// Length that stands for a unit vector: directions returned by the
/// library have Euclidean length close to this constant.
pub const NORMAL_SCALE: i64 = 1024;

/// `r` is the integer square root of `n`.
pub open spec fn is_sqrt(n: int, r: int) -> bool {
    0 <= r && r * r <= n && n < (r + 1) * (r + 1)
}

/// The integer square root of `n`, as a mathematical function.
pub open spec fn spec_isqrt(n: int) -> int {
    choose|r: int| is_sqrt(n, r)
}

/// Two integer square roots of the same number are equal.
pub proof fn lemma_isqrt_unique(n: int, a: int, b: int)
    requires
        is_sqrt(n, a),
        is_sqrt(n, b),
    ensures
        a == b,
{
    if a < b {
        assert((a + 1) * (a + 1) <= b * b) by (nonlinear_arith)
            requires 0 <= a && a + 1 <= b;
    }
    if b < a {
        assert((b + 1) * (b + 1) <= a * a) by (nonlinear_arith)
            requires 0 <= b && b + 1 <= a;
    }
}

/// Largest `r` with `r * r <= n`, found by binary search.
pub fn isqrt_u64(n: u64) -> (r: u64)
    ensures
        is_sqrt(n as int, r as int),
        r == spec_isqrt(n as int),
        r <= 4294967295,
{
    let mut lo: u64 = 0;
    let mut hi: u64 = 4294967295;
    if n < hi {
        hi = n;
        proof {
            assert((n + 1) * (n + 1) > n) by (nonlinear_arith);
        }
    }
    proof {
        assert(n < (4294967295u64 + 1) * (4294967295u64 + 1) || hi == n);
    }
    // lo is always a root lower bound, hi an upper bound.
    while lo < hi
        invariant
            lo <= hi <= 4294967295,
            lo * lo <= n,
            n < (hi + 1) * (hi + 1),
        decreases hi - lo,
    {
        let mid: u64 = lo + (hi - lo + 1) / 2;
        assert(lo < mid <= hi);
        proof {
            assert(mid * mid <= 4294967295u64 * 4294967295u64) by (nonlinear_arith)
                requires mid <= 4294967295u64;
        }
        if mid * mid <= n {
            lo = mid;
        } else {
            hi = mid - 1;
        }
    }
    proof {
        let w = choose|r: int| is_sqrt(n as int, r);
        lemma_isqrt_unique(n as int, lo as int, w);
    }
    lo
}

/// Largest `r` with `r * r <= n`, on 128-bit values.
pub fn isqrt_u128(n: u128) -> (r: u128)
    ensures
        is_sqrt(n as int, r as int),
        r == spec_isqrt(n as int),
        r <= 18446744073709551615,
{
    let mut lo: u128 = 0;
    let mut hi: u128 = 18446744073709551615;
    if n < hi {
        hi = n;
        proof {
            assert((n + 1) * (n + 1) > n) by (nonlinear_arith);
        }
    }
    proof {
        assert(n < (18446744073709551615u128 + 1) * (18446744073709551615u128 + 1) || hi == n);
    }
    while lo < hi
        invariant
            lo <= hi <= 18446744073709551615,
            lo * lo <= n,
            n < (hi + 1) * (hi + 1),
        decreases hi - lo,
    {
        let mid: u128 = lo + (hi - lo + 1) / 2;
        assert(lo < mid <= hi);
        proof {
            assert(mid * mid <= 18446744073709551615u128 * 18446744073709551615u128)
                by (nonlinear_arith)
                requires mid <= 18446744073709551615u128;
        }
        if mid * mid <= n {
            lo = mid;
        } else {
            hi = mid - 1;
        }
    }
    proof {
        let w = choose|r: int| is_sqrt(n as int, r);
        lemma_isqrt_unique(n as int, lo as int, w);
    }
    lo
}

/// `|a| <= ca` and `|b| <= cb` bound the product `a * b` by `ca * cb`.
pub proof fn lemma_mul_bounds(a: int, b: int, ca: int, cb: int)
    requires
        -ca <= a <= ca,
        -cb <= b <= cb,
        0 <= ca,
        0 <= cb,
    ensures
        -(ca * cb) <= a * b <= ca * cb,
{
    assert(-(ca * cb) <= a * b <= ca * cb) by (nonlinear_arith)
        requires -ca <= a <= ca && -cb <= b <= cb && 0 <= ca && 0 <= cb;
}

/// Floor division by a positive divisor moves a value toward zero:
/// the quotient lies between zero and the dividend.
pub proof fn lemma_div_shrinks(a: int, b: int)
    requires
        1 <= b,
    ensures
        a >= 0 ==> 0 <= a / b <= a,
        a < 0 ==> a <= a / b <= 0,
{
    lemma_fundamental_div_mod(a, b);
    lemma_mod_division_less_than_divisor(a, b);
    let q = a / b;
    let r = a % b;
    if a >= 0 {
        assert(q >= 0) by (nonlinear_arith)
            requires b >= 1 && b * q == a - r && a - r >= 1 - b;
        assert(q <= a) by (nonlinear_arith)
            requires b >= 1 && q >= 0 && b * q <= a;
    } else {
        assert(q <= 0) by (nonlinear_arith)
            requires b >= 1 && b * q == a - r && a - r < 0;
        assert((-a) * (b - 1) >= b - 1) by (nonlinear_arith)
            requires -a >= 1 && b - 1 >= 0;
        assert(a - (-a) * (b - 1) == a * b) by (nonlinear_arith);
        assert(b * q >= a * b) by {
            assert(b * q == a - r);
            assert(r <= b - 1);
        }
        assert(q >= a) by (nonlinear_arith)
            requires b > 0 && b * q >= a * b;
    }
}

/// A dividend within `bound * b` has a floor quotient within `bound`.
pub proof fn lemma_div_bound_by(x: int, b: int, bound: int)
    requires
        1 <= b,
        0 <= bound,
        -(bound * b) <= x <= bound * b,
    ensures
        -bound <= x / b <= bound,
{
    lemma_fundamental_div_mod(x, b);
    lemma_mod_division_less_than_divisor(x, b);
    let q = x / b;
    assert(b * q == x - x % b);
    assert(q <= bound) by (nonlinear_arith)
        requires b >= 1 && b * q <= x && x <= bound * b;
    assert(q >= -bound) by (nonlinear_arith)
        requires b >= 1 && b * q > x - b && x >= -(bound * b);
}

proof fn lemma_div_quotient_le(m: int, b: int)
    requires
        0 < b,
        1 <= m,
    ensures
        0 <= (m + b - 1) / b <= m,
{
    lemma_fundamental_div_mod(m + b - 1, b);
    lemma_mod_division_less_than_divisor(m + b - 1, b);
    let q = (m + b - 1) / b;
    assert(b * q <= m + b - 1);
    assert(m + b - 1 <= b * m) by (nonlinear_arith)
        requires 1 <= m && 1 <= b;
    assert(q <= m) by (nonlinear_arith)
        requires 0 < b && b * q <= b * m;
    assert(q >= 0) by (nonlinear_arith)
        requires 0 < b && b * q >= 0;
}

proof fn lemma_neg_div(m: int, b: int, q: int)
    requires
        0 < b,
        0 <= m,
        q == (m + b - 1) / b,
    ensures
        (-m) / b == -q,
{
    lemma_fundamental_div_mod(m + b - 1, b);
    lemma_mod_division_less_than_divisor(m + b - 1, b);
    let s = (m + b - 1) % b;
    assert(m + b - 1 == b * q + s);
    let r = b - 1 - s;
    assert(0 <= r < b);
    assert(m == b * q - r);
    assert(-m == (-q) * b + r) by (nonlinear_arith)
        requires m == b * q - r;
    lemma_fundamental_div_mod_converse_div(-m, b, -q, r);
}

/// Floor division of `a` by a positive `b`, matching `a / b` on `int`.
pub fn div_floor_i64(a: i64, b: i64) -> (r: i64)
    requires
        0 < b,
        -0x4000_0000_0000_0000 < a < 0x4000_0000_0000_0000,
    ensures
        r == a as int / b as int,
{
    if a >= 0 {
        let q: u64 = (a as u64) / (b as u64);
        proof {
            lemma_fundamental_div_mod(a as int, b as int);
        }
        q as i64
    } else {
        let m: u64 = (-a) as u64;
        let q: u64 = (m + (b as u64) - 1) / (b as u64);
        proof {
            lemma_neg_div(m as int, b as int, q as int);
            lemma_fundamental_div_mod(m as int + b as int - 1, b as int);
            lemma_mod_division_less_than_divisor(m as int + b as int - 1, b as int);
            lemma_div_quotient_le(m as int, b as int);
        }
        -(q as i64)
    }
}

/// Floor division of `a` by a positive `b` on 128-bit values.
pub fn div_floor_i128(a: i128, b: i128) -> (r: i128)
    requires
        0 < b,
        -0x4000_0000_0000_0000_0000_0000_0000_0000 < a
            < 0x4000_0000_0000_0000_0000_0000_0000_0000,
    ensures
        r == a as int / b as int,
{
    if a >= 0 {
        let q: u128 = (a as u128) / (b as u128);
        proof {
            lemma_fundamental_div_mod(a as int, b as int);
        }
        q as i128
    } else {
        let m: u128 = (-a) as u128;
        let q: u128 = (m + (b as u128) - 1) / (b as u128);
        proof {
            lemma_neg_div(m as int, b as int, q as int);
            lemma_fundamental_div_mod(m as int + b as int - 1, b as int);
            lemma_mod_division_less_than_divisor(m as int + b as int - 1, b as int);
            lemma_div_quotient_le(m as int, b as int);
        }
        -(q as i128)
    }
}

/// Ceiling division of a nonnegative `a` by a positive `b`.
pub fn div_ceil_i64(a: i64, b: i64) -> (r: i64)
    requires
        0 <= a,
        0 < b,
    ensures
        r == (a + b - 1) as int / b as int,
        b * r >= a,
        r >= 0,
{
    let q: u64 = ((a as u64) + (b as u64) - 1) / (b as u64);
    proof {
        lemma_fundamental_div_mod((a + b - 1) as int, b as int);
        lemma_mod_division_less_than_divisor((a + b - 1) as int, b as int);
        let qi = (a + b - 1) as int / b as int;
        assert(b * qi == a + b - 1 - ((a + b - 1) as int % b as int));
        assert(qi >= 0) by {
            if qi < 0 {
                assert(b * qi <= -b) by (nonlinear_arith)
                    requires b > 0 && qi <= -1;
            }
        }
        if a >= 1 {
            lemma_div_quotient_le(a as int, b as int);
        }
    }
    q as i64
}

} // verus!
