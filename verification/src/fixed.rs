//! Q32.32 fixed-point arithmetic.
//!
//! A value `v: i64` stands for the real number `v / 2^32`; [`ONE`] is `1.0`.
//! Multiplication and division truncate toward zero, as the spec functions
//! [`qmul_s`] and [`qdiv_s`] state exactly.

use vstd::prelude::*;
use vstd::arithmetic::div_mod::{lemma_div_is_ordered, lemma_div_pos_is_pos, lemma_div_multiples_vanish, lemma_fundamental_div_mod};

verus! {

/// The Q32.32 representation of `1.0` (`2^32`).
pub const ONE: i64 = 4294967296;

/// Guard bound for signal-path values: `2^45`, about `8192.0`.  Feedback
/// states are clamped into `[-SIG, SIG]`, which keeps every sum and product
/// in the processing chain inside `i64` and the `qmul` domain.
pub const SIG: i64 = 35184372088832;

/// Largest accepted sample rate in Hz; rates are clamped into `[1, SR_MAX]`.
pub const SR_MAX: u32 = 1000000;

/// Absolute value over `int`.
pub open spec fn iabs(x: int) -> int {
    if x < 0 { -x } else { x }
}

/// Division of `p` by a positive `d`, truncating toward zero.
pub open spec fn div_down(p: int, d: int) -> int {
    if p >= 0 { p / d } else { -((-p) / d) }
}

/// The Q32.32 product: the exact integer product, scaled back by `2^32`
/// with truncation toward zero.
pub open spec fn qmul_s(a: int, b: int) -> int {
    div_down(a * b, ONE as int)
}

/// The Q32.32 quotient for a positive divisor, truncating toward zero.
pub open spec fn qdiv_s(a: int, b: int) -> int {
    if b <= 0 { 0 } else { div_down(a * (ONE as int), b) }
}

/// Ordinary clamping to `[lo, hi]`.
pub open spec fn clamp_s(x: int, lo: int, hi: int) -> int {
    if x < lo { lo } else if x > hi { hi } else { x }
}

/// A product of values bounded in magnitude is bounded by the product of
/// the bounds.
pub proof fn lemma_mul_le(a: int, b: int, aa: int, bb: int)
    requires
        iabs(a) <= aa,
        iabs(b) <= bb,
    ensures
        iabs(a * b) <= aa * bb,
{
    assert(iabs(a * b) <= aa * bb) by (nonlinear_arith)
        requires iabs(a) <= aa, iabs(b) <= bb,
    {}
}

/// The magnitude of a product is the product of the magnitudes, and its sign
/// follows the signs of the factors.
pub proof fn lemma_mul_sign_abs(a: int, b: int)
    ensures
        iabs(a * b) == iabs(a) * iabs(b),
        iabs(a) * iabs(b) >= 0,
        ((a < 0) != (b < 0)) ==> a * b == -(iabs(a) * iabs(b)),
        ((a < 0) == (b < 0)) ==> a * b == iabs(a) * iabs(b),
{
    assert(iabs(a * b) == iabs(a) * iabs(b)
        && iabs(a) * iabs(b) >= 0
        && (((a < 0) != (b < 0)) ==> a * b == -(iabs(a) * iabs(b)))
        && (((a < 0) == (b < 0)) ==> a * b == iabs(a) * iabs(b))) by (nonlinear_arith)
    {}
}

/// Truncation toward zero never grows a magnitude: `|p/d| == |p| / d`.
pub proof fn lemma_div_down_abs(p: int, d: int)
    requires
        d > 0,
    ensures
        iabs(div_down(p, d)) == iabs(p) / d,
        div_down(p, d) >= 0 <==> (p >= 0 || iabs(p) / d == 0),
{
    if p >= 0 {
        lemma_div_pos_is_pos(p, d);
    } else {
        lemma_div_pos_is_pos(-p, d);
    }
}

/// A Q32.32 product with a coefficient in `[0, ONE]` keeps the other
/// factor's bound and never crosses zero away from it.
pub proof fn lemma_qmul_unit(c: int, d: int)
    requires
        0 <= c <= ONE as int,
    ensures
        iabs(qmul_s(c, d)) <= iabs(d),
        d >= 0 ==> 0 <= qmul_s(c, d) <= d,
        d <= 0 ==> d <= qmul_s(c, d) <= 0,
{
    lemma_mul_sign_abs(c, d);
    assert(iabs(c * d) <= (ONE as int) * iabs(d)) by (nonlinear_arith)
        requires 0 <= c <= ONE as int,
    {}
    lemma_div_down_abs(c * d, ONE as int);
    lemma_div_is_ordered(iabs(c * d), (ONE as int) * iabs(d), ONE as int);
    lemma_div_multiples_vanish(iabs(d), ONE as int);
    assert((ONE as int) * iabs(d) == iabs(d) * (ONE as int)) by (nonlinear_arith) {}
}

/// A two-sided bound on a Q32.32 product from bounds on its factors.
pub proof fn lemma_qmul_bound(a: int, b: int, aa: int, bb: int)
    requires
        iabs(a) <= aa,
        iabs(b) <= bb,
    ensures
        iabs(qmul_s(a, b)) <= (aa * bb) / (ONE as int),
{
    lemma_mul_le(a, b, aa, bb);
    lemma_div_down_abs(a * b, ONE as int);
    lemma_div_is_ordered(iabs(a * b), aa * bb, ONE as int);
}

/// A Q32.32 product with a factor of magnitude at most `ONE` keeps the
/// other factor's magnitude.
pub proof fn lemma_qmul_unit_abs(a: int, d: int)
    requires
        iabs(a) <= ONE,
    ensures
        iabs(qmul_s(a, d)) <= iabs(d),
{
    lemma_mul_sign_abs(a, d);
    assert(iabs(a) * iabs(d) <= (ONE as int) * iabs(d)) by (nonlinear_arith)
        requires 0 <= iabs(a) <= ONE as int, 0 <= iabs(d),
    {}
    lemma_div_down_abs(a * d, ONE as int);
    lemma_div_is_ordered(iabs(a * d), (ONE as int) * iabs(d), ONE as int);
    lemma_div_multiples_vanish(iabs(d), ONE as int);
    assert((ONE as int) * iabs(d) == iabs(d) * (ONE as int)) by (nonlinear_arith) {}
}

/// The Q32.32 product is symmetric in its factors.
pub proof fn lemma_qmul_comm(a: int, b: int)
    ensures
        qmul_s(a, b) == qmul_s(b, a),
{
    assert(a * b == b * a) by (nonlinear_arith) {}
}

/// Multiplying by `ONE` is the identity.
pub proof fn lemma_qmul_one(a: int)
    ensures
        qmul_s(a, ONE as int) == a,
{
    lemma_mul_sign_abs(a, ONE as int);
    lemma_div_down_abs(a * (ONE as int), ONE as int);
    lemma_div_multiples_vanish(iabs(a), ONE as int);
    assert(iabs(a) * (ONE as int) == (ONE as int) * iabs(a)) by (nonlinear_arith) {}
}

/// Truncating division of `a` by a small positive divisor.
pub fn div_trunc(a: i64, d: i64) -> (r: i64)
    requires
        2 <= d,
    ensures
        r == div_down(a as int, d as int),
{
    if a >= 0 {
        let q: u64 = (a as u64) / (d as u64);
        proof {
            lemma_div_is_ordered(a as int, 0x7fffffffffffffff, d as int);
            lemma_div_pos_is_pos(a as int, d as int);
        }
        q as i64
    } else {
        let m: u64 = (-(a as i128)) as u64;
        let q: u64 = m / (d as u64);
        proof {
            lemma_div_is_ordered(m as int, 0x8000000000000000, d as int);
            lemma_div_pos_is_pos(m as int, d as int);
            lemma_div_is_ordered(0x8000000000000000, (d as int) * 0x8000000000000000, d as int);
            assert(0x8000000000000000 <= (d as int) * 0x8000000000000000) by (nonlinear_arith)
                requires d as int >= 2,
            {}
            lemma_div_multiples_vanish(0x8000000000000000, d as int);
            assert(m as int / (d as int) < 0x8000000000000000) by {
                lemma_div_strict(m as int, d as int, 0x8000000000000000);
                assert((m as int) < (d as int) * 0x8000000000000000) by (nonlinear_arith)
                    requires d as int >= 2, m as int <= 0xffffffffffffffff,
                {}
            }
        }
        -(q as i64)
    }
}

/// Division by a larger positive divisor gives a result no larger.
pub proof fn lemma_div_ordered_by_den(x: int, d1: int, d2: int)
    requires
        0 <= x,
        1 <= d1 <= d2,
    ensures
        x / d2 <= x / d1,
{
    vstd::arithmetic::div_mod::lemma_div_is_ordered_by_denominator(x, d1, d2);
}

/// A strict upper bound passes through division: `x < d·k` gives `x/d < k`.
pub proof fn lemma_div_strict(x: int, d: int, k: int)
    requires
        d > 0,
        0 <= x,
        x < d * k,
    ensures
        x / d < k,
{
    lemma_fundamental_div_mod(x, d);
    if x / d >= k {
        lemma_div_pos_is_pos(x, d);
        assert(d * (x / d) >= d * k) by (nonlinear_arith)
            requires x / d >= k, d > 0,
        {}
    }
}

/// A sample rate clamped into `[1, SR_MAX]`.
pub open spec fn clamp_sr_s(sr: int) -> int {
    clamp_s(sr, 1, SR_MAX as int)
}

/// Clamp a sample rate into `[1, SR_MAX]` Hz.
pub fn clamp_sr(sr: u32) -> (r: u32)
    ensures
        r == clamp_sr_s(sr as int),
        1 <= r <= SR_MAX,
{
    if sr < 1 {
        1
    } else if sr > SR_MAX {
        SR_MAX
    } else {
        sr
    }
}

/// Clamp `x` into `[lo, hi]`.
pub fn clamp_q(x: i64, lo: i64, hi: i64) -> (r: i64)
    requires
        lo <= hi,
    ensures
        r == clamp_s(x as int, lo as int, hi as int),
        lo <= r <= hi,
{
    if x < lo {
        lo
    } else if x > hi {
        hi
    } else {
        x
    }
}

/// Q32.32 multiply: `r` represents the real product of what `a` and `b`
/// represent, truncated toward zero at `2^-32`.
pub fn qmul(a: i64, b: i64) -> (r: i64)
    requires
        iabs(a as int * b as int) <= 0x400000000000000000000000,
    ensures
        r == qmul_s(a as int, b as int),
{
    proof {
        lemma_mul_sign_abs(a as int, b as int);
    }
    let am: u64 = if a >= 0 { a as u64 } else { (-(a as i128)) as u64 };
    let bm: u64 = if b >= 0 { b as u64 } else { (-(b as i128)) as u64 };
    proof {
        assert(am == iabs(a as int));
        assert(bm == iabs(b as int));
        lemma_mul_le(am as int, bm as int, 0x8000000000000000, 0x8000000000000000);
    }
    let p: u128 = (am as u128) * (bm as u128);
    let q: u128 = p / (ONE as u128);
    proof {
        assert(p == iabs(a as int * b as int));
        lemma_div_is_ordered(p as int, 0x400000000000000000000000, ONE as int);
        lemma_div_pos_is_pos(p as int, ONE as int);
    }
    let neg: bool = (a < 0) != (b < 0);
    if neg {
        proof {
            assert(a as int * b as int == -(p as int));
            assert(qmul_s(a as int, b as int) == -(q as int));
        }
        -(q as i64)
    } else {
        proof {
            assert(a as int * b as int == p as int);
        }
        q as i64
    }
}

/// Q32.32 divide by a positive divisor, truncating toward zero.
pub fn qdiv(a: i64, b: i64) -> (r: i64)
    requires
        b > 0,
        iabs(a as int) * (ONE as int) <= 0x4000000000000000 * (b as int),
    ensures
        r == qdiv_s(a as int, b as int),
{
    let am: u64 = if a >= 0 { a as u64 } else { (-(a as i128)) as u64 };
    proof {
        assert(am == iabs(a as int));
    }
    let num: u128 = (am as u128) * (ONE as u128);
    let q: u128 = num / (b as u128);
    proof {
        lemma_div_is_ordered(num as int, 0x4000000000000000 * (b as int), b as int);
        lemma_div_multiples_vanish(0x4000000000000000, b as int);
        lemma_div_pos_is_pos(num as int, b as int);
        lemma_mul_sign_abs(a as int, ONE as int);
    }
    if a < 0 {
        proof {
            assert(a as int * (ONE as int) == -(num as int));
            assert(qdiv_s(a as int, b as int) == -(q as int));
        }
        -(q as i64)
    } else {
        proof {
            assert(a as int * (ONE as int) == num as int);
        }
        q as i64
    }
}

/// Integer square root: the largest `r` with `r * r <= n`.
pub fn isqrt(n: u128) -> (r: u64)
    requires
        n <= 0x1000000000000000000000000,
    ensures
        (r as int) * (r as int) <= n as int,
        (n as int) < (((r as int) + 1) * ((r as int) + 1)),
{
    let mut lo: u64 = 0;
    let mut hi: u64 = 0x1000000000000;
    proof {
        assert(((hi as int) + 1) * ((hi as int) + 1) > 0x1000000000000000000000000) by (nonlinear_arith)
            requires hi == 0x1000000000000u64,
        {}
    }
    while lo < hi
        invariant
            lo <= hi,
            (lo as int) * (lo as int) <= n as int,
            (n as int) < (((hi as int) + 1) * ((hi as int) + 1)),
            hi <= 0x1000000000000,
        decreases hi - lo,
    {
        let mid: u64 = lo + (hi - lo + 1) / 2;
        proof {
            assert(lo < mid <= hi);
            assert((mid as int) * (mid as int) <= 0x1000000000000 * 0x1000000000000) by (nonlinear_arith)
                requires mid <= 0x1000000000000,
            {}
        }
        let sq: u128 = (mid as u128) * (mid as u128);
        if sq <= n {
            lo = mid;
        } else {
            proof {
                assert((n as int) < (mid as int) * (mid as int));
            }
            hi = mid - 1;
        }
    }
    lo
}

} // verus!
