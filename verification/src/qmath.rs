//! Transcendental kernels on Q32.32 values: base-2 exponential and
//! logarithm, a quarter-wave sine, and the coefficient helpers derived from
//! them.
//!
//! Each kernel's contract gives the exact value it computes, as a spec
//! function over the same fixed-point arithmetic, together with the range
//! facts callers rely on.  The polynomials are the approximations the
//! library is specified with: a degree-six Taylor tail for `2^t` on `[0,1)`
//! and an odd fifth-order polynomial for the sine quarter wave.

use vstd::prelude::*;
use vstd::arithmetic::div_mod::{
    lemma_div_is_ordered, lemma_div_pos_is_pos, lemma_div_multiples_vanish,
    lemma_fundamental_div_mod, lemma_fundamental_div_mod_converse,
};
use vstd::arithmetic::power2::{pow2, lemma2_to64, lemma_pow2_strictly_increases};
use vstd::bits::{lemma_u64_shl_is_mul, lemma_u64_shr_is_div};
use crate::fixed::{
    ONE, iabs, qmul_s, qdiv_s, clamp_s, clamp_q, qmul, qdiv,
    lemma_mul_le, lemma_mul_sign_abs, lemma_div_down_abs, lemma_qmul_unit, lemma_qmul_bound,
};

verus! {

/// `0.5` in Q32.32.
pub const HALF: i64 = 2147483648;

/// `0.25` in Q32.32.
pub const QUARTER: i64 = 1073741824;

/// `2π` in Q32.32.
pub const TWO_PI: i64 = 26986075409;

/// `1 / 2π` in Q32.32.
pub const INV_TWO_PI: i64 = 683565276;

/// `π / 2` in Q32.32.
pub const PI_OVER_2: i64 = 6746518852;

/// `log2(e)` in Q32.32.
pub const LOG2_E: i64 = 6196328019;

/// Taylor coefficients of `2^t` on `[0, 1)`: `ln(2)^k / k!` in Q32.32.
pub const EXP2_C1: i64 = 2977044472;
pub const EXP2_C2: i64 = 1031764991;
pub const EXP2_C3: i64 = 238388332;
pub const EXP2_C4: i64 = 41309550;
pub const EXP2_C5: i64 = 5726720;
pub const EXP2_C6: i64 = 661577;

/// Quarter-wave sine polynomial `sin(π/2·u) ≈ u·(A + u²·(B + u²·C))`,
/// constrained to be exact at `u = 1` with zero slope there.
pub const SIN_A: i64 = 6746518852;
pub const SIN_B: i64 = -2755619465;
pub const SIN_C: i64 = 304067908;

/// Splits `p` into its floor quotient and Euclidean remainder by `ONE`.
pub fn split_one(p: i64) -> (nr: (i64, i64))
    ensures
        nr.0 == (p as int) / (ONE as int),
        nr.1 == (p as int) % (ONE as int),
        p == nr.0 * (ONE as int) + nr.1,
        0 <= nr.1 < ONE,
        -0x80000000 <= nr.0 <= 0x7fffffff,
{
    if p >= 0 {
        let q: u64 = (p as u64) / (ONE as u64);
        let r: u64 = (p as u64) % (ONE as u64);
        proof {
            lemma_fundamental_div_mod(p as int, ONE as int);
            lemma_fundamental_div_mod_converse(p as int, ONE as int, q as int, r as int);
        }
        (q as i64, r as i64)
    } else {
        let m: u64 = (-(p as i128)) as u64;
        let q: u64 = m / (ONE as u64);
        let r0: u64 = m % (ONE as u64);
        proof {
            lemma_fundamental_div_mod(m as int, ONE as int);
        }
        if r0 == 0 {
            proof {
                lemma_fundamental_div_mod_converse(p as int, ONE as int, -(q as int), 0);
            }
            (-(q as i64), 0)
        } else {
            proof {
                lemma_fundamental_div_mod_converse(
                    p as int, ONE as int, -(q as int) - 1, (ONE as int) - (r0 as int));
            }
            (-(q as i64) - 1, ONE - (r0 as i64))
        }
    }
}

/// A phase wrapped into `[0, 1)`: the Euclidean remainder by `ONE`.
pub open spec fn wrap01_s(p: int) -> int {
    p % (ONE as int)
}

/// Wrap a Q32.32 phase into `[0, ONE)`.
pub fn wrap01(p: i64) -> (r: i64)
    ensures
        r == wrap01_s(p as int),
        0 <= r < ONE,
{
    let nr = split_one(p);
    nr.1
}

/// The fractional-exponent polynomial: `2^(t/ONE)` for `t` in `[0, ONE)`.
pub open spec fn exp2_frac_s(t: int) -> int {
    (ONE as int) + qmul_s(t,
        (EXP2_C1 as int) + qmul_s(t,
            (EXP2_C2 as int) + qmul_s(t,
                (EXP2_C3 as int) + qmul_s(t,
                    (EXP2_C4 as int) + qmul_s(t,
                        (EXP2_C5 as int) + qmul_s(t, EXP2_C6 as int))))))
}

/// The polynomial stays within one binade: `ONE <= exp2_frac_s(t) < 2·ONE`.
pub proof fn lemma_exp2_frac_range(t: int)
    requires
        0 <= t < ONE,
    ensures
        ONE <= exp2_frac_s(t) < 2 * (ONE as int),
{
    let a6 = EXP2_C6 as int;
    lemma_qmul_unit(t, a6);
    let a5 = (EXP2_C5 as int) + qmul_s(t, a6);
    lemma_qmul_unit(t, a5);
    let a4 = (EXP2_C4 as int) + qmul_s(t, a5);
    lemma_qmul_unit(t, a4);
    let a3 = (EXP2_C3 as int) + qmul_s(t, a4);
    lemma_qmul_unit(t, a3);
    let a2 = (EXP2_C2 as int) + qmul_s(t, a3);
    lemma_qmul_unit(t, a2);
    let a1 = (EXP2_C1 as int) + qmul_s(t, a2);
    lemma_qmul_unit(t, a1);
}

/// Evaluate the fractional-exponent polynomial.
pub fn exp2_frac(t: i64) -> (r: i64)
    requires
        0 <= t < ONE,
    ensures
        r == exp2_frac_s(t as int),
        ONE <= r < 2 * ONE,
{
    proof {
        lemma_exp2_frac_range(t as int);
        lemma_qmul_unit(t as int, EXP2_C6 as int);
        lemma_mul_le(t as int, EXP2_C6 as int, 0x100000000, 0x100000000);
    }
    let a5: i64 = EXP2_C5 + qmul(t, EXP2_C6);
    proof {
        lemma_qmul_unit(t as int, a5 as int);
        lemma_mul_le(t as int, a5 as int, 0x100000000, 0x100000000);
    }
    let a4: i64 = EXP2_C4 + qmul(t, a5);
    proof {
        lemma_qmul_unit(t as int, a4 as int);
        lemma_mul_le(t as int, a4 as int, 0x100000000, 0x100000000);
    }
    let a3: i64 = EXP2_C3 + qmul(t, a4);
    proof {
        lemma_qmul_unit(t as int, a3 as int);
        lemma_mul_le(t as int, a3 as int, 0x100000000, 0x100000000);
    }
    let a2: i64 = EXP2_C2 + qmul(t, a3);
    proof {
        lemma_qmul_unit(t as int, a2 as int);
        lemma_mul_le(t as int, a2 as int, 0x100000000, 0x100000000);
    }
    let a1: i64 = EXP2_C1 + qmul(t, a2);
    proof {
        lemma_qmul_unit(t as int, a1 as int);
        lemma_mul_le(t as int, a1 as int, 0x100000000, 0x100000000);
    }
    ONE + qmul(t, a1)
}

/// The base-2 exponential on Q32.32, with its argument clamped into
/// `[-40, 20]`: split into integer and fractional exponent, evaluate the
/// fractional polynomial, shift by the integer part.
pub open spec fn exp2_s(x: int) -> int {
    let xc = clamp_s(x, -40 * (ONE as int), 20 * (ONE as int));
    let n = xc / (ONE as int);
    let t = xc % (ONE as int);
    let p = exp2_frac_s(t);
    if n >= 0 {
        p * (pow2(n as nat) as int)
    } else {
        p / (pow2((-n) as nat) as int)
    }
}

/// `exp2_s` is nonnegative, at most `2^21` copies of `ONE`, and at most
/// `ONE` for nonpositive arguments (exactly `ONE` at zero).
pub proof fn lemma_exp2_range(x: int)
    ensures
        0 <= exp2_s(x),
        exp2_s(x) < 0x20000000000000,
        x <= 0 ==> exp2_s(x) <= ONE,
        x == 0 ==> exp2_s(x) == ONE,
{
    lemma2_to64();
    let xc = clamp_s(x, -40 * (ONE as int), 20 * (ONE as int));
    let n = xc / (ONE as int);
    let t = xc % (ONE as int);
    let p = exp2_frac_s(t);
    lemma_exp2_frac_range(t);
    lemma_fundamental_div_mod(xc, ONE as int);
    if n >= 0 {
        assert(n <= 20) by {
            if n > 20 {
                assert(xc == (ONE as int) * n + t);
                assert((ONE as int) * n >= 21 * (ONE as int)) by (nonlinear_arith)
                    requires n >= 21,
                {}
            }
        }
        assert(pow2(20) == 0x100000);
        assert(pow2(n as nat) <= 0x100000) by {
            if n < 20 {
                lemma_pow2_strictly_increases(n as nat, 20);
            }
        }
        assert(p * (pow2(n as nat) as int) < 0x20000000000000) by (nonlinear_arith)
            requires 0 <= p < 2 * (ONE as int), 0 < pow2(n as nat) <= 0x100000,
        {}
        assert(p * (pow2(n as nat) as int) >= 0) by (nonlinear_arith)
            requires p >= 0, pow2(n as nat) >= 0,
        {}
        if x <= 0 {
            assert(n == 0 && t == 0) by {
                assert(xc == (ONE as int) * n + t);
                assert(n >= 1 ==> (ONE as int) * n >= ONE) by (nonlinear_arith) {}
                assert(n <= -1 ==> (ONE as int) * n <= -(ONE as int)) by (nonlinear_arith) {}
            }
            assert(qmul_s(0, (EXP2_C1 as int) + qmul_s(0,
                (EXP2_C2 as int) + qmul_s(0,
                    (EXP2_C3 as int) + qmul_s(0,
                        (EXP2_C4 as int) + qmul_s(0,
                            (EXP2_C5 as int) + qmul_s(0, EXP2_C6 as int))))))== 0) by {
                lemma_qmul_zero_left((EXP2_C1 as int) + qmul_s(0,
                    (EXP2_C2 as int) + qmul_s(0,
                        (EXP2_C3 as int) + qmul_s(0,
                            (EXP2_C4 as int) + qmul_s(0,
                                (EXP2_C5 as int) + qmul_s(0, EXP2_C6 as int))))));
            }
            assert(exp2_frac_s(0) == ONE);
            assert(p * (pow2(0) as int) == p) by (nonlinear_arith)
                requires pow2(0) == 1,
            {}
        }
    } else {
        vstd::arithmetic::power2::lemma_pow2_pos((-n) as nat);
        lemma_div_pos_is_pos(p, pow2((-n) as nat) as int);
        assert(pow2((-n) as nat) >= pow2(1)) by {
            if -n > 1 {
                lemma_pow2_strictly_increases(1, (-n) as nat);
            }
        }
        crate::fixed::lemma_div_ordered_by_den(p, 2, pow2((-n) as nat) as int);
        assert(p / 2 < ONE);
    }
}

/// A Q32.32 product with zero is zero.
pub proof fn lemma_qmul_zero_left(b: int)
    ensures
        qmul_s(0, b) == 0,
{
    assert(0 * b == 0) by (nonlinear_arith) {}
    vstd::arithmetic::div_mod::lemma_basic_div(0, ONE as int);
}

/// Evaluate the base-2 exponential.
pub fn exp2q(x: i64) -> (r: i64)
    ensures
        r == exp2_s(x as int),
        0 <= r < 0x20000000000000,
        x <= 0 ==> r <= ONE,
        x == 0 ==> r == ONE,
{
    proof {
        lemma_exp2_range(x as int);
        lemma2_to64();
    }
    let xc = clamp_q(x, -40 * ONE, 20 * ONE);
    let nt = split_one(xc);
    let n = nt.0;
    let t = nt.1;
    let p = exp2_frac(t);
    if n >= 0 {
        proof {
            assert(n <= 20) by {
                assert(xc == n * (ONE as int) + t);
                assert(n >= 21 ==> n * (ONE as int) >= 21 * (ONE as int)) by (nonlinear_arith) {}
            }
            assert(pow2(n as nat) <= 0x100000) by {
                if n < 20 {
                    lemma_pow2_strictly_increases(n as nat, 20);
                }
            }
            lemma_mul_le(p as int, pow2(n as nat) as int, 0x200000000, 0x100000);
            lemma_u64_shl_is_mul(p as u64, n as u64);
        }
        ((p as u64) << (n as u64)) as i64
    } else {
        let sh: i64 = -n;
        if sh >= 64 {
            proof {
                assert(pow2(64) == 0x10000000000000000) by {
                    lemma_pow2_64_value();
                }
                assert(pow2(sh as nat) >= pow2(64)) by {
                    if sh > 64 {
                        lemma_pow2_strictly_increases(64, sh as nat);
                    }
                }
                vstd::arithmetic::div_mod::lemma_basic_div(p as int, pow2(sh as nat) as int);
            }
            0
        } else {
            proof {
                lemma_u64_shr_is_div(p as u64, sh as u64);
            }
            ((p as u64) >> (sh as u64)) as i64
        }
    }
}

/// Concrete value of `pow2(64)`.
proof fn lemma_pow2_64_value()
    ensures
        pow2(64) == 0x10000000000000000,
{
    vstd::arithmetic::power2::lemma2_to64_rest();
}

/// Normalize a mantissa upward: double until it reaches `[ONE, ·)`,
/// decrementing the exponent.
pub open spec fn norm_up_s(m: int, e: int) -> (int, int)
    decreases 2 * (ONE as int) - m,
    when 1 <= m
{
    if m >= ONE {
        (m, e)
    } else {
        norm_up_s(2 * m, e - 1)
    }
}

/// Normalize a mantissa downward: halve until it is below `2·ONE`,
/// incrementing the exponent.
pub open spec fn norm_down_s(m: int, e: int) -> (int, int)
    decreases m,
    when m >= ONE
{
    if m < 2 * (ONE as int) {
        (m, e)
    } else {
        norm_down_s(m / 2, e + 1)
    }
}

/// Normalize `x >= 1` to a mantissa in `[ONE, 2·ONE)` and an exponent in
/// `[-32, 32]`, matching the two spec normalizations in sequence.
fn normalize(x: u64) -> (r: (u64, i64))
    requires
        1 <= x,
    ensures
        (r.0 as int, r.1 as int) == norm_down_s(norm_up_s(x as int, 0).0, norm_up_s(x as int, 0).1),
        ONE <= r.0 < 2 * (ONE as u64),
        -32 <= r.1 <= 32,
{
    proof {
        lemma2_to64();
        assert((x as int) * (pow2(0) as int) == x as int) by (nonlinear_arith)
            requires pow2(0) == 1,
        {}
    }
    let mut m: u64 = x;
    let mut e: i64 = 0;
    while m < (ONE as u64)
        invariant
            1 <= m,
            -32 <= e <= 0,
            m as int == (x as int) * (pow2((-e) as nat) as int),
            norm_up_s(x as int, 0) == norm_up_s(m as int, e as int),
            pow2(0) == 1,
        decreases 2 * (ONE as int) - (m as int),
    {
        proof {
            assert(pow2((-(e - 1)) as nat) == 2 * pow2((-e) as nat)) by {
                vstd::arithmetic::power2::lemma_pow2_unfold((-(e - 1)) as nat);
            }
            assert((m as int) * 2 == (x as int) * (pow2((-(e - 1)) as nat) as int)) by (nonlinear_arith)
                requires
                    m as int == (x as int) * (pow2((-e) as nat) as int),
                    pow2((-(e - 1)) as nat) == 2 * pow2((-e) as nat),
            {
            }
            assert(e - 1 >= -32) by {
                assert(pow2((-(e - 1)) as nat) <= (m as int) * 2) by (nonlinear_arith)
                    requires
                        (m as int) * 2 == (x as int) * (pow2((-(e - 1)) as nat) as int),
                        1 <= x,
                        0 <= pow2((-(e - 1)) as nat),
                {
                }
                if e - 1 < -32 {
                    assert(pow2(33) == 0x200000000) by {
                        lemma_pow2_33_value();
                    }
                    if e - 1 < -33 {
                        lemma_pow2_strictly_increases(33, (-(e - 1)) as nat);
                    }
                }
            }
        }
        m = 2 * m;
        e = e - 1;
    }
    proof {
        assert(norm_up_s(x as int, 0) == (m as int, e as int));
    }
    let ghost m1: int = m as int;
    let ghost e1: int = e as int;
    proof {
        assert(m1 / (pow2(0) as int) == m1);
    }
    while m >= 2 * (ONE as u64)
        invariant
            ONE <= m,
            -32 <= e1 <= 0,
            0 <= e - e1 <= 32,
            0 <= m1 <= 0xffffffffffffffff,
            m as int == m1 / (pow2((e - e1) as nat) as int),
            norm_down_s(m1, e1) == norm_down_s(m as int, e as int),
        decreases m,
    {
        proof {
            lemma2_to64();
            let k = (e - e1) as nat;
            assert((m as int) / 2 == m1 / (pow2((k + 1) as nat) as int)) by {
                vstd::arithmetic::power2::lemma_pow2_pos(k);
                vstd::arithmetic::div_mod::lemma_div_denominator(m1, pow2(k) as int, 2);
                vstd::arithmetic::power2::lemma_pow2_unfold((k + 1) as nat);
                assert((pow2(k) as int) * 2 == pow2((k + 1) as nat) as int);
            }
            assert(e - e1 + 1 <= 32) by {
                vstd::arithmetic::power2::lemma_pow2_pos((k + 1) as nat);
                lemma_fundamental_div_mod(m1, pow2((k + 1) as nat) as int);
                assert((m as int) / 2 >= ONE);
                assert(m1 >= (pow2((k + 1) as nat) as int) * (ONE as int)) by (nonlinear_arith)
                    requires
                        m1 == (pow2((k + 1) as nat) as int) * (m1 / (pow2((k + 1) as nat) as int)) + m1 % (pow2((k + 1) as nat) as int),
                        m1 / (pow2((k + 1) as nat) as int) >= ONE as int,
                        m1 % (pow2((k + 1) as nat) as int) >= 0,
                        pow2((k + 1) as nat) > 0,
                {
                }
                if k + 1 > 32 {
                    lemma_pow2_strictly_increases(32, (k + 1) as nat);
                    assert(pow2(32) == 0x100000000);
                    assert(m1 >= 0x100000000 * (ONE as int) + (ONE as int)) by (nonlinear_arith)
                        requires
                            m1 >= (pow2((k + 1) as nat) as int) * (ONE as int),
                            pow2((k + 1) as nat) as int > 0x100000000,
                    {
                    }
                }
            }
        }
        m = m / 2;
        e = e + 1;
    }
    proof {
        assert(norm_down_s(m1, e1) == (m as int, e as int));
    }
    (m, e)
}

/// Concrete value of `pow2(33)`.
proof fn lemma_pow2_33_value()
    ensures
        pow2(33) == 0x200000000,
{
    vstd::arithmetic::power2::lemma2_to64_rest();
}

/// The base-2 logarithm on Q32.32 for positive arguments: normalize to a
/// mantissa in `[1, 2)`, take `ln` by the arctanh series in
/// `z = (m-1)/(m+1)`, scale by `log2(e)` and add the exponent.
pub open spec fn log2_s(x: int) -> int {
    let mu = norm_up_s(x, 0);
    let md = norm_down_s(mu.0, mu.1);
    let m = md.0;
    let e = md.1;
    let w = qdiv_s(m - ONE, m + ONE);
    let w2 = qmul_s(w, w);
    let w3 = qmul_s(w2, w);
    let w5 = qmul_s(w3, w2);
    let w7 = qmul_s(w5, w2);
    let lnm = 2 * (w + w3 / 3 + w5 / 5 + w7 / 7);
    e * (ONE as int) + qmul_s(lnm, LOG2_E as int)
}

/// Evaluate the base-2 logarithm; the result is within `[-33, 33]` octaves.
pub fn log2q(x: i64) -> (r: i64)
    requires
        x >= 1,
    ensures
        r == log2_s(x as int),
        -40 * (ONE as int) <= r <= 40 * (ONE as int),
{
    let md = normalize(x as u64);
    let m: u64 = md.0;
    let e: i64 = md.1;
    let z: i64 = (m - (ONE as u64)) as i64;
    let den: i64 = (m + (ONE as u64)) as i64;
    proof {
        assert(0 <= z < ONE);
        assert(2 * (ONE as int) <= den < 3 * (ONE as int));
        assert(iabs(z as int) * (ONE as int) <= 0x4000000000000000 * (den as int)) by (nonlinear_arith)
            requires 0 <= z < ONE, den >= 2 * (ONE as int),
        {}
        assert(-32 <= e <= 32);
    }
    let w: i64 = qdiv(z, den);
    proof {
        lemma_div_down_abs((z as int) * (ONE as int), den as int);
        lemma_mul_le(z as int, ONE as int, ONE as int, ONE as int);
        assert((z as int) * (ONE as int) >= 0) by (nonlinear_arith)
            requires z >= 0,
        {}
        assert(iabs((z as int) * (ONE as int)) <= (ONE as int) * (ONE as int));
        assert((ONE as int) * (ONE as int) / (den as int) <= (ONE as int) * (ONE as int) / (2 * (ONE as int))) by {
            crate::fixed::lemma_div_ordered_by_den((ONE as int) * (ONE as int), 2 * (ONE as int), den as int);
        }
        assert((ONE as int) * (ONE as int) / (2 * (ONE as int)) == HALF) by (nonlinear_arith) {}
        lemma_div_is_ordered(iabs((z as int) * (ONE as int)), (ONE as int) * (ONE as int), den as int);
        assert(0 <= w <= HALF);
    }
    let w2: i64 = qmul_check(w, w);
    let w3: i64 = qmul_check(w2, w);
    let w5: i64 = qmul_check(w3, w2);
    let w7: i64 = qmul_check(w5, w2);
    let lnm: i64 = 2 * (w + ((w3 as u64) / 3) as i64 + ((w5 as u64) / 5) as i64 + ((w7 as u64) / 7) as i64);
    proof {
        assert(0 <= lnm <= 4 * (ONE as int));
        lemma_mul_le(lnm as int, LOG2_E as int, 4 * (ONE as int), LOG2_E as int);
        lemma_qmul_bound(lnm as int, LOG2_E as int, 4 * (ONE as int), LOG2_E as int);
        lemma_div_down_abs((lnm as int) * (LOG2_E as int), ONE as int);
    }
    let sc: i64 = qmul(lnm, LOG2_E);
    e * ONE + sc
}

/// `qmul` on arguments already known to sit in `[0, ONE]`; returns the same
/// product together with its range.
fn qmul_check(a: i64, b: i64) -> (r: i64)
    requires
        0 <= a <= ONE,
        0 <= b <= ONE,
    ensures
        r == qmul_s(a as int, b as int),
        0 <= r <= b,
{
    proof {
        lemma_mul_le(a as int, b as int, ONE as int, ONE as int);
        lemma_qmul_unit(a as int, b as int);
    }
    qmul(a, b)
}

/// The quarter-wave sine polynomial, clamped into `[-ONE, ONE]`.
pub open spec fn sin_quarter_s(u: int) -> int {
    let u2 = qmul_s(u, u);
    let acc1 = (SIN_B as int) + qmul_s(u2, SIN_C as int);
    let acc2 = (SIN_A as int) + qmul_s(u2, acc1);
    clamp_s(qmul_s(u, acc2), -(ONE as int), ONE as int)
}

/// Evaluate the quarter-wave sine: `sin(π/2 · u/ONE)` for `u` in `[0, ONE]`.
pub fn sin_quarter(u: i64) -> (r: i64)
    requires
        0 <= u <= ONE,
    ensures
        r == sin_quarter_s(u as int),
        0 <= r <= ONE,
{
    proof {
        lemma_mul_le(u as int, u as int, ONE as int, ONE as int);
        lemma_qmul_unit(u as int, u as int);
    }
    let u2 = qmul(u, u);
    proof {
        assert(0 <= u2 <= ONE) by {
            lemma_div_down_abs((u as int) * (u as int), ONE as int);
            assert((u as int) * (u as int) >= 0) by (nonlinear_arith) requires u >= 0, {}
            lemma_div_is_ordered((u as int) * (u as int), (ONE as int) * (ONE as int), ONE as int);
            lemma_div_multiples_vanish(ONE as int, ONE as int);
            assert((ONE as int) * (ONE as int) == (ONE as int) * (ONE as int));
        }
        lemma_mul_le(u2 as int, SIN_C as int, ONE as int, SIN_C as int);
        lemma_qmul_unit(u2 as int, SIN_C as int);
    }
    let inner = SIN_B + qmul(u2, SIN_C);
    proof {
        lemma_mul_le(u2 as int, inner as int, ONE as int, 0x100000000);
        lemma_qmul_unit(u2 as int, inner as int);
    }
    let acc = SIN_A + qmul(u2, inner);
    proof {
        assert(0 <= acc <= 2 * (ONE as int));
        lemma_mul_le(u as int, acc as int, ONE as int, 2 * (ONE as int));
        lemma_mul_sign_abs(u as int, acc as int);
        lemma_div_down_abs((u as int) * (acc as int), ONE as int);
    }
    let v = qmul(u, acc);
    clamp_q(v, -ONE, ONE)
}

/// One period of a sine over a phase in `[0, 1)`: fold onto the quarter
/// wave by half-period antisymmetry and quarter-period symmetry.
pub open spec fn sin01_s(p: int) -> int {
    let sgn: int = if p < HALF { 1 } else { -1 };
    let q0: int = if p < HALF { p } else { p - HALF };
    let q1: int = if q0 > QUARTER { (HALF as int) - q0 } else { q0 };
    sgn * sin_quarter_s(4 * q1)
}

/// The folded sine always lies inside `[-ONE, ONE]`.
pub proof fn lemma_sin01_bound(p: int)
    ensures
        -(ONE as int) <= sin01_s(p) <= ONE as int,
{
    let sgn: int = if p < HALF { 1 } else { -1 };
    let q0: int = if p < HALF { p } else { p - HALF };
    let q1: int = if q0 > QUARTER { (HALF as int) - q0 } else { q0 };
    let v = sin_quarter_s(4 * q1);
    assert(-(ONE as int) <= v <= ONE as int);
    assert(1 * v == v) by (nonlinear_arith) {}
    assert(-1 * v == -v) by (nonlinear_arith) {}
}

/// Evaluate the sine of `2π · p/ONE` for a wrapped phase `p`.
pub fn sin01(p: i64) -> (r: i64)
    requires
        0 <= p < ONE,
    ensures
        r == sin01_s(p as int),
        -ONE <= r <= ONE,
        p < HALF ==> 0 <= r,
{
    let sgn_neg: bool = p >= HALF;
    let q0: i64 = if p < HALF { p } else { p - HALF };
    let q1: i64 = if q0 > QUARTER { HALF - q0 } else { q0 };
    let v = sin_quarter(4 * q1);
    if sgn_neg {
        proof {
            assert(-1 * (v as int) == -(v as int)) by (nonlinear_arith) {}
        }
        -v
    } else {
        proof {
            assert(1 * (v as int) == v as int) by (nonlinear_arith) {}
        }
        v
    }
}

} // verus!
