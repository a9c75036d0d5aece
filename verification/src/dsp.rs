//! Scalar DSP utilities over Q32.32 samples: clamping and interpolation,
//! decibel conversion, fast trigonometry, nonlinearities, one-pole
//! coefficient derivation, a running RMS meter, a DC blocker, and block
//! helpers (mix-in-place and a phase-accumulator sine filler).
//!
//! Every function is total over its stated domain: out-of-range control
//! inputs are clamped, never rejected.

use vstd::prelude::*;
use vstd::arithmetic::div_mod::{
    lemma_div_is_ordered, lemma_div_pos_is_pos, lemma_fundamental_div_mod,
    lemma_fundamental_div_mod_converse,
};
use vstd::arithmetic::power2::pow2;
use crate::fixed::{
    ONE, SIG, SR_MAX, iabs, div_down, qmul_s, qdiv_s, clamp_s, clamp_q, qmul, qdiv, div_trunc,
    isqrt,
    lemma_mul_le, lemma_mul_sign_abs, lemma_div_down_abs, lemma_qmul_unit, lemma_qmul_bound,
};
use crate::qmath::{
    HALF, QUARTER, TWO_PI, INV_TWO_PI, PI_OVER_2, LOG2_E,
    wrap01_s, wrap01, exp2_s, exp2q, lemma_exp2_range, log2_s, log2q,
    sin01_s, sin01,
};

verus! {

/// `log2(10)/20` in Q32.32: octaves per decibel.
pub const OCT_PER_DB: i64 = 713378626;

/// `20·log10(2)` in Q32.32: decibels per octave.
pub const DB_PER_OCT: i64 = 25858279730;

/// `π` in Q32.32 (half of [`TWO_PI`]).
pub const PI_Q: i64 = 13493037704;

/// `-120 dB` in Q32.32, the floor of the decibel scale.
pub const DB_FLOOR: i64 = -515396075520;

/// Clamp `x` into `[lo, hi]`.
pub fn clamp(x: i64, lo: i64, hi: i64) -> (r: i64)
    requires
        lo <= hi,
    ensures
        r == clamp_s(x as int, lo as int, hi as int),
{
    clamp_q(x, lo, hi)
}

/// `1.0` for nonnegative inputs, `-1.0` otherwise.
pub fn signum_nonzero(x: i64) -> (r: i64)
    ensures
        r == if x >= 0 { ONE as int } else { -(ONE as int) },
{
    if x >= 0 { ONE } else { -ONE }
}

/// Linear interpolation `a + (b - a)·t`.
pub open spec fn lerp_s(a: int, b: int, t: int) -> int {
    a + qmul_s(b - a, t)
}

/// Linear interpolation between `a` and `b` by `t`.
pub fn lerp(a: i64, b: i64, t: i64) -> (r: i64)
    requires
        iabs(a as int) <= SIG,
        iabs(b as int) <= SIG,
        iabs(t as int) <= 16 * (ONE as int),
    ensures
        r == lerp_s(a as int, b as int, t as int),
{
    let d = b - a;
    proof {
        assert(iabs(d as int) <= 0x400000000000);
        lemma_mul_le(d as int, t as int, 0x400000000000, 0x1000000000);
        assert(iabs((d as int) * (t as int)) <= 0x400000000000000000000000);
        lemma_qmul_bound(d as int, t as int, 0x400000000000, 0x1000000000);
        assert(iabs(qmul_s(d as int, t as int)) <= 0x4000000000000);
    }
    a + qmul(d, t)
}

/// The cubic ease applied to a normalized position clamped into `[0, 1]`.
pub open spec fn smoothstep_s(e0: int, e1: int, x: int) -> int {
    let t = if e1 <= e0 {
        if x <= e0 { 0 } else { ONE as int }
    } else if x - e0 <= 0 {
        0
    } else if x - e0 >= e1 - e0 {
        ONE as int
    } else {
        qdiv_s(x - e0, e1 - e0)
    };
    clamp_s(qmul_s(qmul_s(t, t), 3 * (ONE as int) - 2 * t), 0, ONE as int)
}

/// Smoothstep: clamp the normalized input to `[0, 1]`, then `t²·(3 - 2t)`.
pub fn smoothstep(e0: i64, e1: i64, x: i64) -> (r: i64)
    requires
        iabs(e0 as int) <= SIG,
        iabs(e1 as int) <= SIG,
        iabs(x as int) <= SIG,
    ensures
        r == smoothstep_s(e0 as int, e1 as int, x as int),
        0 <= r <= ONE,
{
    let t: i64 = if e1 <= e0 {
        if x <= e0 { 0 } else { ONE }
    } else if x - e0 <= 0 {
        0
    } else if x - e0 >= e1 - e0 {
        ONE
    } else {
        proof {
            assert(iabs((x - e0) as int) * (ONE as int) <= 0x4000000000000000 * ((e1 - e0) as int))
                by (nonlinear_arith)
                requires
                    0 < ((x - e0) as int) < ((e1 - e0) as int),
                    (e1 - e0) as int <= 2 * (SIG as int),
            {}
        }
        let q = qdiv(x - e0, e1 - e0);
        proof {
            lemma_mul_sign_abs((x - e0) as int, ONE as int);
            lemma_div_down_abs(((x - e0) as int) * (ONE as int), (e1 - e0) as int);
            lemma_mul_le((x - e0) as int, ONE as int, (e1 - e0) as int - 1, ONE as int);
            assert(((e1 - e0) as int - 1) * (ONE as int) < ((e1 - e0) as int) * (ONE as int))
                by (nonlinear_arith)
                requires (e1 - e0) as int >= 1,
            {}
            lemma_div_is_ordered(iabs(((x - e0) as int) * (ONE as int)),
                ((e1 - e0) as int) * (ONE as int), (e1 - e0) as int);
            vstd::arithmetic::div_mod::lemma_div_multiples_vanish(ONE as int, (e1 - e0) as int);
            assert(((e1 - e0) as int) * (ONE as int) == ((e1 - e0) as int) * (ONE as int));
            assert(0 <= q <= ONE);
        }
        q
    };
    proof {
        lemma_mul_le(t as int, t as int, ONE as int, ONE as int);
        lemma_qmul_unit(t as int, t as int);
        lemma_qmul_bound(t as int, t as int, ONE as int, ONE as int);
        assert((ONE as int) * (ONE as int) / (ONE as int) == ONE as int) by (nonlinear_arith) {}
        lemma_mul_sign_abs(t as int, t as int);
        lemma_div_down_abs((t as int) * (t as int), ONE as int);
    }
    let t2 = qmul(t, t);
    let u = 3 * ONE - 2 * t;
    proof {
        assert(0 <= t2 <= ONE);
        assert(0 <= u <= 3 * (ONE as int));
        lemma_mul_le(t2 as int, u as int, 0x100000000, 0x300000000);
        lemma_qmul_unit(t2 as int, u as int);
    }
    let v = qmul(t2, u);
    clamp_q(v, 0, ONE)
}

/// Wrap a phase into `[0, 1)` by floor reduction; exact at the boundary.
pub fn wrap_phase01(p: i64) -> (r: i64)
    ensures
        r == wrap01_s(p as int),
        0 <= r < ONE,
{
    wrap01(p)
}

/// Denormal guard.  The guard's zeroing threshold of `1e-20` lies far
/// below one Q32.32 ulp (`2^-32`), so no representable nonzero sample is
/// ever below it and the guard is the identity.  It is kept so every
/// feedback tap in the signal path applies it, as the design prescribes.
pub fn kill_denormals(x: i64) -> (r: i64)
    ensures
        r == x,
{
    x
}

/// Decibels to linear gain: `10^(db/20)`, with `db <= -120` taken to
/// exactly zero.
pub open spec fn db_to_lin_s(db: int) -> int {
    if db <= DB_FLOOR { 0 } else { exp2_s(qmul_s(db, OCT_PER_DB as int)) }
}

/// Convert decibels to a linear gain.
pub fn db_to_lin(db: i64) -> (r: i64)
    ensures
        r == db_to_lin_s(db as int),
        0 <= r < 0x20000000000000,
{
    if db <= DB_FLOOR {
        0
    } else {
        proof {
            lemma_mul_le(db as int, OCT_PER_DB as int, 0x8000000000000000, OCT_PER_DB as int);
            lemma_qmul_bound(db as int, OCT_PER_DB as int, 0x8000000000000000, OCT_PER_DB as int);
            lemma_exp2_range(qmul_s(db as int, OCT_PER_DB as int));
        }
        exp2q(qmul(db, OCT_PER_DB))
    }
}

/// Linear gain to decibels: `20·log10(lin)`; nonpositive values (the
/// only representable values at or below the `1e-20` cutoff of the
/// decibel floor) give exactly `-120 dB`.
pub open spec fn lin_to_db_s(lin: int) -> int {
    if lin <= 0 { DB_FLOOR as int } else { qmul_s(log2_s(lin), DB_PER_OCT as int) }
}

/// Convert a linear gain to decibels.
pub fn lin_to_db(lin: i64) -> (r: i64)
    ensures
        r == lin_to_db_s(lin as int),
        iabs(r as int) <= 242 * (ONE as int),
{
    if lin <= 0 {
        proof {
            assert(iabs(DB_FLOOR as int) <= 242 * (ONE as int));
        }
        DB_FLOOR
    } else {
        let lg = log2q(lin);
        proof {
            lemma_mul_le(lg as int, DB_PER_OCT as int, 40 * (ONE as int), DB_PER_OCT as int);
            lemma_qmul_bound(lg as int, DB_PER_OCT as int, 40 * (ONE as int), DB_PER_OCT as int);
        }
        qmul(lg, DB_PER_OCT)
    }
}

/// Fast sine in radians: reduce the angle to a phase in `[0, 1)` and
/// evaluate the folded fifth-order quarter-wave polynomial.
pub open spec fn fast_sin_s(x: int) -> int {
    sin01_s(wrap01_s(qmul_s(x, INV_TWO_PI as int)))
}

/// Sine of `x` radians (Q32.32), by polynomial approximation.
pub fn fast_sin(x: i64) -> (r: i64)
    requires
        iabs(x as int) <= 0x4000000000000,
    ensures
        r == fast_sin_s(x as int),
        -ONE <= r <= ONE,
{
    proof {
        lemma_mul_le(x as int, INV_TWO_PI as int, 0x4000000000000, INV_TWO_PI as int);
    }
    let p = wrap01(qmul(x, INV_TWO_PI));
    sin01(p)
}

/// Cosine of `x` radians: `sin(x + π/2)`.
pub fn fast_cos(x: i64) -> (r: i64)
    requires
        iabs(x as int) <= 0x2000000000000,
    ensures
        r == fast_sin_s(x as int + PI_OVER_2 as int),
        -ONE <= r <= ONE,
{
    fast_sin(x + PI_OVER_2)
}

/// The smooth odd rational soft clipper `x·(27 + x²)/(27 + 9x²)` on inputs
/// clamped into `[-3, 3]`, where it rises monotonically from `-1` to `1`;
/// the result is held inside `[-1, 1]`.
pub open spec fn soft_clip_s(x: int) -> int {
    let xc = clamp_s(x, -3 * (ONE as int), 3 * (ONE as int));
    let x2 = qmul_s(xc, xc);
    let num = qmul_s(xc, 27 * (ONE as int) + x2);
    let den = 27 * (ONE as int) + 9 * x2;
    clamp_s(qdiv_s(num, den), -(ONE as int), ONE as int)
}

/// Soft clip: bounded to `[-1, 1]` for every input.
pub fn soft_clip(x: i64) -> (r: i64)
    ensures
        r == soft_clip_s(x as int),
        -ONE <= r <= ONE,
{
    let xc = clamp_q(x, -3 * ONE, 3 * ONE);
    proof {
        lemma_mul_le(xc as int, xc as int, 3 * (ONE as int), 3 * (ONE as int));
        lemma_qmul_bound(xc as int, xc as int, 3 * (ONE as int), 3 * (ONE as int));
        lemma_mul_sign_abs(xc as int, xc as int);
        lemma_div_down_abs((xc as int) * (xc as int), ONE as int);
    }
    let x2 = qmul(xc, xc);
    proof {
        assert(0 <= x2 <= 9 * (ONE as int));
        lemma_mul_le(xc as int, (27 * ONE + x2) as int, 3 * (ONE as int), 36 * (ONE as int));
        lemma_qmul_bound(xc as int, (27 * ONE + x2) as int, 3 * (ONE as int), 36 * (ONE as int));
    }
    let num = qmul(xc, 27 * ONE + x2);
    let den = 27 * ONE + 9 * x2;
    proof {
        assert(iabs(num as int) <= 108 * (ONE as int));
        assert(iabs(num as int) * (ONE as int) <= 0x4000000000000000 * (den as int))
            by (nonlinear_arith)
            requires
                iabs(num as int) <= 108 * (ONE as int),
                den as int >= 27 * (ONE as int),
        {}
    }
    let q = qdiv(num, den);
    clamp_q(q, -ONE, ONE)
}

/// Drive then soft clip.  Both inputs are first clamped into the signal
/// guard band, so the function is total and its result lies in `[-1, 1]`
/// for every input, however large.
pub fn saturate(x: i64, drive: i64) -> (r: i64)
    ensures
        r == soft_clip_s(qmul_s(
            clamp_s(x as int, -(SIG as int), SIG as int),
            clamp_s(drive as int, -(SIG as int), SIG as int))),
        -ONE <= r <= ONE,
{
    let xc = clamp_q(x, -SIG, SIG);
    let dc = clamp_q(drive, -SIG, SIG);
    proof {
        lemma_mul_le(xc as int, dc as int, 0x200000000000, 0x200000000000);
    }
    soft_clip(qmul(xc, dc))
}

/// The smoothing argument `1/(t·0.001·sr)` in Q32.32, computed as
/// `1000·2^64 / (t_ms·sr)` and capped at `40`.
pub open spec fn coeff_ms_arg_s(t_ms: int, sr: int) -> int {
    let raw = 18446744073709551616000int / (t_ms * sr);
    if raw > 40 * (ONE as int) { 40 * (ONE as int) } else { raw }
}

/// One-pole coefficient from a millisecond time constant:
/// `exp(-1/(t·0.001·sr))`, and exactly `ONE` when `t_ms <= 0`.
pub open spec fn one_pole_coeff_ms_s(t_ms: int, sr: int) -> int {
    if t_ms <= 0 {
        ONE as int
    } else {
        exp2_s(-qmul_s(coeff_ms_arg_s(t_ms, sr), LOG2_E as int))
    }
}

/// Derive the one-pole smoothing coefficient for time constant `t_ms`
/// (Q32.32 milliseconds) at sample rate `sr`.
pub fn one_pole_coeff_ms(t_ms: i64, sr: u32) -> (r: i64)
    requires
        1 <= sr,
    ensures
        r == one_pole_coeff_ms_s(t_ms as int, sr as int),
        0 <= r <= ONE,
{
    if t_ms <= 0 {
        return ONE;
    }
    proof {
        lemma_mul_le(t_ms as int, sr as int, 0x8000000000000000, 0x100000000);
        assert((t_ms as int) * (sr as int) >= 1) by (nonlinear_arith)
            requires t_ms as int >= 1, sr as int >= 1,
        {}
    }
    let d: u128 = (t_ms as u128) * (sr as u128);
    proof {
        lemma_div_pos_is_pos(18446744073709551616000int, d as int);
    }
    let raw: u128 = 18446744073709551616000u128 / d;
    let rawc: i64 = if raw > (40 * ONE) as u128 { 40 * ONE } else { raw as i64 };
    proof {
        assert(0 <= rawc <= 40 * (ONE as int));
        lemma_mul_le(rawc as int, LOG2_E as int, 40 * (ONE as int), LOG2_E as int);
        lemma_qmul_bound(rawc as int, LOG2_E as int, 40 * (ONE as int), LOG2_E as int);
        lemma_mul_sign_abs(rawc as int, LOG2_E as int);
        lemma_div_down_abs((rawc as int) * (LOG2_E as int), ONE as int);
        lemma_exp2_range(-qmul_s(rawc as int, LOG2_E as int));
    }
    let arg = qmul(rawc, LOG2_E);
    exp2q(-arg)
}

/// The Hz coefficient is a unit fraction.
pub proof fn lemma_one_pole_coeff_hz_range(cut: int, sr: int)
    requires
        1 <= sr,
    ensures
        0 <= one_pole_coeff_hz_s(cut, sr) <= ONE,
{
    let fcc = fc_clamp_s(cut, sr);
    assert(fcc >= 0) by {
        lemma_div_pos_is_pos(499 * sr * (ONE as int), 1000);
    }
    let ratio = fcc / sr;
    lemma_div_pos_is_pos(fcc, sr);
    lemma_mul_sign_abs(TWO_PI as int, ratio);
    lemma_div_down_abs((TWO_PI as int) * ratio, ONE as int);
    let arg0 = qmul_s(TWO_PI as int, ratio);
    lemma_mul_sign_abs(arg0, LOG2_E as int);
    lemma_div_down_abs(arg0 * (LOG2_E as int), ONE as int);
    lemma_exp2_range(-qmul_s(arg0, LOG2_E as int));
}

/// The cutoff clamped into `[0, 0.499·sr]` (in Q32.32 Hz).
pub open spec fn fc_clamp_s(cut: int, sr: int) -> int {
    clamp_s(cut, 0, 499 * sr * (ONE as int) / 1000)
}

/// One-pole coefficient from a cutoff in Hz: `exp(-2π·fc/sr)` with the
/// cutoff clamped into `[0, 0.499·sr]`.
pub open spec fn one_pole_coeff_hz_s(cut: int, sr: int) -> int {
    exp2_s(-qmul_s(qmul_s(TWO_PI as int, fc_clamp_s(cut, sr) / sr), LOG2_E as int))
}

/// Derive the one-pole coefficient for cutoff `cut` (Q32.32 Hz) at sample
/// rate `sr`.
pub fn one_pole_coeff_hz(cut: i64, sr: u32) -> (r: i64)
    requires
        1 <= sr <= SR_MAX,
    ensures
        r == one_pole_coeff_hz_s(cut as int, sr as int),
        0 <= r <= ONE,
{
    let fc = clamp_fc(cut, sr);
    let ratio: i64 = ((fc as u64) / (sr as u64)) as i64;
    proof {
        assert(ratio as int == fc_clamp_s(cut as int, sr as int) / (sr as int));
        assert(0 <= ratio <= ONE) by {
            lemma_div_is_ordered(fc as int, (sr as int) * (ONE as int), sr as int);
            vstd::arithmetic::div_mod::lemma_div_multiples_vanish(ONE as int, sr as int);
            assert(499 * (sr as int) * (ONE as int) / 1000 <= (sr as int) * (ONE as int)) by {
                lemma_div_is_ordered(499 * (sr as int) * (ONE as int),
                    1000 * ((sr as int) * (ONE as int)), 1000);
                assert(499 * (sr as int) * (ONE as int) <= 1000 * ((sr as int) * (ONE as int)))
                    by (nonlinear_arith)
                    requires sr as int >= 1,
                {}
                vstd::arithmetic::div_mod::lemma_div_multiples_vanish(
                    (sr as int) * (ONE as int), 1000);
            }
        }
        lemma_mul_le(TWO_PI as int, ratio as int, TWO_PI as int, ONE as int);
        lemma_qmul_bound(TWO_PI as int, ratio as int, TWO_PI as int, ONE as int);
        lemma_mul_sign_abs(TWO_PI as int, ratio as int);
        lemma_div_down_abs((TWO_PI as int) * (ratio as int), ONE as int);
    }
    let arg0 = qmul(TWO_PI, ratio);
    proof {
        assert(0 <= arg0 <= TWO_PI);
        lemma_mul_le(arg0 as int, LOG2_E as int, TWO_PI as int, LOG2_E as int);
        lemma_qmul_bound(arg0 as int, LOG2_E as int, TWO_PI as int, LOG2_E as int);
        lemma_mul_sign_abs(arg0 as int, LOG2_E as int);
        lemma_div_down_abs((arg0 as int) * (LOG2_E as int), ONE as int);
        lemma_exp2_range(-qmul_s(qmul_s(TWO_PI as int, ratio as int), LOG2_E as int));
    }
    let arg = qmul(arg0, LOG2_E);
    exp2q(-arg)
}

/// Clamp a cutoff into `[0, 0.499·sr]` Q32.32 Hz.
fn clamp_fc(cut: i64, sr: u32) -> (r: i64)
    requires
        1 <= sr <= SR_MAX,
    ensures
        r == fc_clamp_s(cut as int, sr as int),
        0 <= r <= (sr as int) * (ONE as int),
{
    proof {
        assert(499 * (sr as int) * (ONE as int) <= 0x7fffffffffffffff) by (nonlinear_arith)
            requires sr as int <= 1000000, ONE as int == 4294967296,
        {}
    }
    let top: u64 = 499u64 * (sr as u64) * (ONE as u64) / 1000u64;
    proof {
        lemma_div_is_ordered(499 * (sr as int) * (ONE as int),
            1000 * ((sr as int) * (ONE as int)), 1000);
        assert(499 * (sr as int) * (ONE as int) <= 1000 * ((sr as int) * (ONE as int)))
            by (nonlinear_arith)
            requires sr as int >= 1,
        {}
        vstd::arithmetic::div_mod::lemma_div_multiples_vanish((sr as int) * (ONE as int), 1000);
        lemma_div_pos_is_pos(499 * (sr as int) * (ONE as int), 1000);
    }
    clamp_q(cut, 0, top as i64)
}

/// The TPT integrator gain `tan(π·fc/sr)`, computed as the ratio of the
/// polynomial sine and cosine with the cosine held away from zero.
pub open spec fn tpt_g_s(cut: int, sr: int) -> int {
    let p = (fc_clamp_s(cut, sr) / sr) / 2;
    let s = sin01_s(p);
    let c0 = sin01_s(wrap01_s(p + QUARTER as int));
    let c = if c0 < 1000 { 1000 } else { c0 };
    qdiv_s(s, c)
}

/// Derive the TPT integrator gain for cutoff `cut` (Q32.32 Hz) at sample
/// rate `sr`.
pub fn tpt_g(cut: i64, sr: u32) -> (r: i64)
    requires
        1 <= sr <= SR_MAX,
    ensures
        r == tpt_g_s(cut as int, sr as int),
        0 <= r <= 0x100000000000000,
{
    let fc = clamp_fc(cut, sr);
    proof {
        assert(499 * (sr as int) * (ONE as int) < 1000 * ((sr as int) * (HALF as int)))
            by (nonlinear_arith)
            requires sr as int >= 1, ONE as int == 2 * (HALF as int), HALF as int > 0,
        {}
        crate::fixed::lemma_div_strict(499 * (sr as int) * (ONE as int), 1000,
            (sr as int) * (HALF as int));
        crate::fixed::lemma_div_strict(fc as int, sr as int, HALF as int);
    }
    let ratio: i64 = ((fc as u64) / (sr as u64)) as i64;
    proof {
        assert(0 <= ratio < HALF);
    }
    let p: i64 = ((ratio as u64) / 2u64) as i64;
    proof {
        assert(p as int == (fc_clamp_s(cut as int, sr as int) / (sr as int)) / 2);
        assert(0 <= p < HALF);
        lemma_div_is_ordered(ratio as int, HALF as int, 2);
    }
    let s = sin01(p);
    let c0 = sin01(wrap01(p + QUARTER));
    let c = if c0 < 1000 { 1000 } else { c0 };
    proof {
        assert(1000 <= c <= ONE);
        assert(0 <= s <= ONE);
        assert(iabs(s as int) * (ONE as int) <= 0x4000000000000000 * (c as int))
            by (nonlinear_arith)
            requires 0 <= s as int <= ONE as int, c as int >= 1000, ONE as int == 4294967296,
        {}
        lemma_mul_sign_abs(s as int, ONE as int);
        lemma_div_down_abs((s as int) * (ONE as int), c as int);
        lemma_mul_le(s as int, ONE as int, 0x100000000, 0x100000000);
        assert(qdiv_s(s as int, c as int) <= 0x10000000000000000int / 1000) by {
            lemma_div_is_ordered(iabs((s as int) * (ONE as int)), 0x10000000000000000, c as int);
            crate::fixed::lemma_div_ordered_by_den(0x10000000000000000, 1000, c as int);
        }
    }
    qdiv(s, c)
}

/// Running RMS meter: an exponentially smoothed mean square, read out as a
/// square root.
#[derive(Clone, Copy, Debug)]
pub struct Rms {
    /// Smoothing factor in `[0, ONE]`.
    pub alpha: i64,
    /// The exponentially smoothed mean square; read-only for callers.
    pub state: i64,
}

impl Rms {
    /// Well-formed: the coefficient is a unit fraction, the mean square is
    /// nonnegative and bounded.
    pub open spec fn wf(&self) -> bool {
        &&& 0 <= self.alpha <= ONE
        &&& 0 <= self.state <= 0x400000000000000
    }

    /// A fresh meter with smoothing factor `alpha`.
    pub fn new(alpha: i64) -> (r: Rms)
        requires
            0 <= alpha <= ONE,
        ensures
            r.wf(),
            r.alpha == alpha,
            r.state == 0,
    {
        Rms { alpha, state: 0 }
    }

    /// Clear the mean-square state.
    pub fn reset(&mut self)
        ensures
            final(self).alpha == old(self).alpha,
            final(self).state == 0,
    {
        self.state = 0;
    }

    /// Feed one sample; the state moves toward `x²` by factor `alpha` and
    /// the square root of the new state is returned.  Silence never
    /// increases the meter.
    pub fn tick(&mut self, x: i64) -> (r: i64)
        requires
            old(self).wf(),
            iabs(x as int) <= SIG,
        ensures
            final(self).wf(),
            final(self).alpha == old(self).alpha,
            final(self).state == old(self).state
                + qmul_s(old(self).alpha as int, qmul_s(x as int, x as int) - old(self).state),
            (r as int) * (r as int) <= (final(self).state as int) * (ONE as int),
            (final(self).state as int) * (ONE as int) < (((r as int) + 1) * ((r as int) + 1)),
            0 <= r,
            x == 0 ==> final(self).state
                == old(self).state + qmul_s(old(self).alpha as int, 0 - old(self).state),
            x == 0 ==> final(self).state <= old(self).state,
    {
        proof {
            lemma_mul_le(x as int, x as int, SIG as int, SIG as int);
            lemma_qmul_bound(x as int, x as int, SIG as int, SIG as int);
            lemma_mul_sign_abs(x as int, x as int);
            lemma_div_down_abs((x as int) * (x as int), ONE as int);
        }
        let x2 = qmul(x, x);
        proof {
            if x == 0 {
                crate::qmath::lemma_qmul_zero_left(0);
            }
            assert(0 <= x2 <= 0x400000000000000);
            lemma_qmul_unit(self.alpha as int, (x2 - self.state) as int);
            lemma_mul_le(self.alpha as int, (x2 - self.state) as int,
                ONE as int, 0x800000000000000);
        }
        self.state = self.state + qmul(self.alpha, x2 - self.state);
        proof {
            lemma_mul_le(self.state as int, ONE as int, 0x400000000000000, ONE as int);
            assert((self.state as int) * (ONE as int) <= 0x1000000000000000000000000)
                by (nonlinear_arith)
                requires 0 <= self.state as int <= 0x400000000000000,
            {}
            assert((self.state as int) * (ONE as int) >= 0) by (nonlinear_arith)
                requires self.state as int >= 0,
            {}
        }
        let ms: u128 = (self.state as u128) * (ONE as u128);
        let root = isqrt(ms);
        proof {
            assert((root as int) * (root as int) <= ms as int);
            assert(root as int <= 0x1000000000000) by {
                if root > 0x1000000000000 {
                    assert((root as int) * (root as int) > 0x1000000000000000000000000)
                        by (nonlinear_arith)
                        requires root as int > 0x1000000000000,
                    {}
                }
            }
        }
        root as i64
    }
}

/// The meter's mean square after `n` consecutive silent ticks: the
/// `tick` recurrence at an input of zero, iterated.
pub open spec fn silent_after_s(state: int, alpha: int, n: nat) -> int
    decreases n,
{
    if n == 0 {
        state
    } else {
        let p = silent_after_s(state, alpha, (n - 1) as nat);
        p + qmul_s(alpha, 0 - p)
    }
}

/// Feeding silence at least halves the meter's mean square every tick
/// whenever the smoothing factor is at least one half, up to one ulp of
/// truncation slack.
pub proof fn lemma_rms_silence_halves(alpha: int, state: int)
    requires
        HALF <= alpha <= ONE,
        0 <= state,
    ensures
        state + qmul_s(alpha, 0 - state) <= state / 2 + 1,
{
    lemma_mul_sign_abs(alpha, 0 - state);
    lemma_div_down_abs(alpha * (0 - state), ONE as int);
    assert(iabs(alpha * (0 - state)) == alpha * state) by (nonlinear_arith)
        requires alpha >= 0, state >= 0,
    {}
    assert((HALF as int) * state <= alpha * state) by (nonlinear_arith)
        requires HALF as int <= alpha, state >= 0,
    {}
    lemma_div_is_ordered((HALF as int) * state, alpha * state, ONE as int);
    assert(((HALF as int) * state) / (ONE as int) == state / 2) by {
        vstd::arithmetic::div_mod::lemma_div_multiples_vanish(state, HALF as int);
        vstd::arithmetic::div_mod::lemma_div_denominator((HALF as int) * state, HALF as int, 2);
        assert((HALF as int) * 2 == ONE as int);
    }
}

/// After `n` silent ticks the mean square has shrunk to at most
/// `state / 2^n` plus two ulps of truncation slack, and never goes
/// negative: silence decays any history geometrically.
pub proof fn lemma_rms_silence_decays(state: int, alpha: int, n: nat)
    requires
        HALF <= alpha <= ONE,
        0 <= state <= 0x400000000000000,
    ensures
        0 <= silent_after_s(state, alpha, n) <= state / (pow2(n) as int) + 2,
    decreases n,
{
    vstd::arithmetic::power2::lemma2_to64();
    if n == 0 {
        assert(pow2(0) == 1);
        assert(state / 1int == state);
    } else {
        lemma_rms_silence_decays(state, alpha, (n - 1) as nat);
        let p = silent_after_s(state, alpha, (n - 1) as nat);
        let a = state / (pow2((n - 1) as nat) as int);
        lemma_qmul_unit(alpha, 0 - p);
        lemma_rms_silence_halves(alpha, p);
        assert(p / 2 <= (a + 2) / 2) by {
            lemma_div_is_ordered(p, a + 2, 2);
        }
        assert((a + 2) / 2 == a / 2 + 1) by {
            lemma_fundamental_div_mod(a, 2);
            assert((a / 2 + 1) * 2 == 2 * (a / 2) + 2) by (nonlinear_arith) {}
            lemma_fundamental_div_mod_converse(a + 2, 2, a / 2 + 1, a % 2);
        }
        assert(a / 2 == state / (pow2(n) as int)) by {
            vstd::arithmetic::power2::lemma_pow2_pos((n - 1) as nat);
            vstd::arithmetic::div_mod::lemma_div_denominator(
                state, pow2((n - 1) as nat) as int, 2);
            vstd::arithmetic::power2::lemma_pow2_unfold(n);
            assert((pow2((n - 1) as nat) as int) * 2 == 2 * (pow2((n - 1) as nat) as int))
                by (nonlinear_arith) {}
        }
    }
}

/// After sixty or more consecutive silent ticks, any well-formed history
/// is down to at most two ulps of mean square — so the read-out, whose
/// square `tick` bounds by `state·ONE`, is far below the `1e-3` silence
/// floor (`4294967` ulps).  The smoothing factor must be at least one
/// half: a factor near zero barely moves the meter and silence then
/// decays it arbitrarily slowly.
pub proof fn lemma_rms_silence_floor(state: int, alpha: int, n: nat)
    requires
        HALF <= alpha <= ONE,
        0 <= state <= 0x400000000000000,
        n >= 60,
    ensures
        0 <= silent_after_s(state, alpha, n) <= 2,
        silent_after_s(state, alpha, n) * (ONE as int) < 4294967 * 4294967,
{
    lemma_rms_silence_decays(state, alpha, n);
    vstd::arithmetic::power2::lemma2_to64_rest();
    assert(pow2(60) <= pow2(n)) by {
        if n > 60 {
            vstd::arithmetic::power2::lemma_pow2_strictly_increases(60, n);
        }
    }
    vstd::arithmetic::div_mod::lemma_basic_div(state, pow2(n) as int);
    assert(silent_after_s(state, alpha, n) * (ONE as int) < 4294967 * 4294967)
        by (nonlinear_arith)
        requires
            0 <= silent_after_s(state, alpha, n) <= 2,
            ONE as int == 4294967296,
    {}
}

/// One-pole DC blocker: `y[n] = x[n] - x[n-1] + a·y[n-1]`, with the output
/// held inside the signal guard band.
#[derive(Clone, Copy, Debug)]
pub struct DcBlock {
    /// Feedback coefficient in `[0, ONE]`.
    pub a: i64,
    /// Previous input sample.
    pub x1: i64,
    /// Previous output sample.
    pub y1: i64,
}

impl DcBlock {
    /// Well-formed: unit coefficient, guarded state.
    pub open spec fn wf(&self) -> bool {
        &&& 0 <= self.a <= ONE
        &&& iabs(self.x1 as int) <= SIG
        &&& iabs(self.y1 as int) <= SIG
    }

    /// A fresh blocker with feedback coefficient `a` (close to one).
    pub fn new(a: i64) -> (r: DcBlock)
        requires
            0 <= a <= ONE,
        ensures
            r.wf(),
            r.a == a,
            r.x1 == 0,
            r.y1 == 0,
    {
        DcBlock { a, x1: 0, y1: 0 }
    }

    /// Replace the feedback coefficient.
    pub fn set_coeff(&mut self, a: i64)
        requires
            old(self).wf(),
            0 <= a <= ONE,
        ensures
            final(self).wf(),
            final(self).a == a,
            final(self).x1 == old(self).x1,
            final(self).y1 == old(self).y1,
    {
        self.a = a;
    }

    /// Advance one sample: the new output is
    /// `x - x1 + a·y1`, clamped into the guard band.
    pub fn process(&mut self, x: i64) -> (r: i64)
        requires
            old(self).wf(),
            iabs(x as int) <= SIG,
        ensures
            final(self).wf(),
            final(self).a == old(self).a,
            final(self).x1 == x,
            final(self).y1 == clamp_s(
                x - old(self).x1 + qmul_s(old(self).a as int, old(self).y1 as int),
                -(SIG as int), SIG as int),
            r == final(self).y1,
    {
        proof {
            lemma_qmul_unit(self.a as int, self.y1 as int);
            lemma_mul_le(self.a as int, self.y1 as int, ONE as int, SIG as int);
        }
        let y = clamp_q(x - self.x1 + qmul(self.a, self.y1), -SIG, SIG);
        self.x1 = x;
        self.y1 = y;
        kill_denormals(y)
    }
}

/// Mix `src` into `dst` in place: `dst[i] += src[i]·gain`.  Slices of
/// different lengths, or empty ones, are left untouched.
pub fn mix_in_place(dst: &mut Vec<i64>, src: &Vec<i64>, gain: i64)
    requires
        forall|i: int| 0 <= i < old(dst)@.len() ==> iabs(#[trigger] old(dst)@[i] as int) <= SIG,
        forall|i: int| 0 <= i < src@.len() ==> iabs(#[trigger] src@[i] as int) <= SIG,
        iabs(gain as int) <= 16 * (ONE as int),
    ensures
        final(dst)@.len() == old(dst)@.len(),
        old(dst)@.len() != src@.len() || old(dst)@.len() == 0 ==> final(dst)@ == old(dst)@,
        old(dst)@.len() == src@.len() && old(dst)@.len() > 0 ==>
            forall|i: int| 0 <= i < final(dst)@.len() ==>
                #[trigger] final(dst)@[i] as int
                    == old(dst)@[i] + qmul_s(src@[i] as int, gain as int),
{
    if dst.len() != src.len() || dst.is_empty() {
        return;
    }
    let n = dst.len();
    let mut i: usize = 0;
    while i < n
        invariant
            0 < n == dst@.len() == src@.len(),
            0 <= i <= n,
            forall|j: int| 0 <= j < src@.len() ==> iabs(#[trigger] src@[j] as int) <= SIG,
            iabs(gain as int) <= 16 * (ONE as int),
            forall|j: int| i <= j < n ==> #[trigger] dst@[j] == old(dst)@[j],
            forall|j: int| i <= j < n ==> iabs(#[trigger] dst@[j] as int) <= SIG,
            forall|j: int| 0 <= j < i ==>
                #[trigger] dst@[j] as int == old(dst)@[j] + qmul_s(src@[j] as int, gain as int),
        decreases n - i,
    {
        proof {
            lemma_mul_le(src@[i as int] as int, gain as int, SIG as int, 16 * (ONE as int));
            lemma_qmul_bound(src@[i as int] as int, gain as int, SIG as int, 16 * (ONE as int));
        }
        let v = dst[i] + qmul(src[i], gain);
        dst.set(i, v);
        i = i + 1;
    }
}

/// One step of the sine filler's phase accumulator: add the increment,
/// and re-center into `(-2π, 2π]`-ish bounds whenever the phase leaves
/// `[-2π, 2π]`.
pub open spec fn fill_phase_step_s(p: int, inc: int) -> int {
    let q = p + inc;
    if q > TWO_PI || q < -(TWO_PI as int) {
        (q + PI_Q as int) % (TWO_PI as int) - PI_Q as int
    } else {
        q
    }
}

/// The phase after `n` steps.
pub open spec fn fill_phase_after_s(p0: int, inc: int, n: nat) -> int
    decreases n,
{
    if n == 0 {
        p0
    } else {
        fill_phase_step_s(fill_phase_after_s(p0, inc, (n - 1) as nat), inc)
    }
}

/// A phase in radians reduced into `[-π, π]`: the Euclidean remainder of
/// the π-shifted angle by `2π`, shifted back.
pub open spec fn reduce_rad_s(p: int) -> int {
    (p + PI_Q as int) % (TWO_PI as int) - PI_Q as int
}

/// The seventh-order odd sine polynomial
/// `x - x³/6 + x⁵/120 - x⁷/5040` on Q32.32, with truncating steps.
pub open spec fn sin7_s(x: int) -> int {
    let x2 = qmul_s(x, x);
    let x3 = qmul_s(x2, x);
    let x5 = qmul_s(x3, x2);
    let x7 = qmul_s(x5, x2);
    x - div_down(x3, 6) + div_down(x5, 120) - div_down(x7, 5040)
}

/// Evaluate the seventh-order odd sine polynomial on a reduced angle.
fn sin7(x: i64) -> (r: i64)
    requires
        iabs(x as int) <= 0x400000000,
    ensures
        r == sin7_s(x as int),
        iabs(r as int) <= 0x2000000000,
{
    proof {
        lemma_mul_le(x as int, x as int, 0x400000000, 0x400000000);
        lemma_qmul_bound(x as int, x as int, 0x400000000, 0x400000000);
    }
    let x2 = qmul(x, x);
    proof {
        assert(iabs(x2 as int) <= 0x1000000000);
        lemma_mul_le(x2 as int, x as int, 0x1000000000, 0x400000000);
        lemma_qmul_bound(x2 as int, x as int, 0x1000000000, 0x400000000);
    }
    let x3 = qmul(x2, x);
    proof {
        assert(iabs(x3 as int) <= 0x4000000000);
        lemma_mul_le(x3 as int, x2 as int, 0x4000000000, 0x1000000000);
        lemma_qmul_bound(x3 as int, x2 as int, 0x4000000000, 0x1000000000);
    }
    let x5 = qmul(x3, x2);
    proof {
        assert(iabs(x5 as int) <= 0x40000000000);
        lemma_mul_le(x5 as int, x2 as int, 0x40000000000, 0x1000000000);
        lemma_qmul_bound(x5 as int, x2 as int, 0x40000000000, 0x1000000000);
    }
    let x7 = qmul(x5, x2);
    proof {
        assert(iabs(x7 as int) <= 0x400000000000);
        lemma_div_down_abs(x3 as int, 6);
        lemma_div_ordered_pair(x3 as int, 6);
        lemma_div_down_abs(x5 as int, 120);
        lemma_div_ordered_pair(x5 as int, 120);
        lemma_div_down_abs(x7 as int, 5040);
        lemma_div_ordered_pair(x7 as int, 5040);
    }
    x - div_trunc(x3, 6) + div_trunc(x5, 120) - div_trunc(x7, 5040)
}

/// Truncating division by a positive divisor never grows a magnitude.
proof fn lemma_div_ordered_pair(p: int, d: int)
    requires
        1 <= d,
    ensures
        iabs(p) / d <= iabs(p),
{
    crate::fixed::lemma_div_ordered_by_den(iabs(p), 1, d);
}

/// The sample the filler writes for a phase `p` (radians): the
/// seventh-order odd sine polynomial of the angle reduced into `[-π, π]`.
pub open spec fn fill_sample_s(p: int) -> int {
    sin7_s(reduce_rad_s(p))
}

/// Euclidean remainder by a positive divisor.
fn emod(p: i64, d: i64) -> (r: i64)
    requires
        0 < d,
    ensures
        r == (p as int) % (d as int),
        0 <= r < d,
{
    if p >= 0 {
        let r: u64 = (p as u64) % (d as u64);
        proof {
            lemma_fundamental_div_mod(p as int, d as int);
            assert((((p as u64) / (d as u64)) as int) * (d as int)
                == (d as int) * (((p as u64) / (d as u64)) as int)) by (nonlinear_arith) {}
            lemma_fundamental_div_mod_converse(
                p as int, d as int, ((p as u64) / (d as u64)) as int, r as int);
        }
        r as i64
    } else {
        let m: u64 = (-(p as i128)) as u64;
        let q: u64 = m / (d as u64);
        let r0: u64 = m % (d as u64);
        proof {
            lemma_fundamental_div_mod(m as int, d as int);
        }
        if r0 == 0 {
            proof {
                assert((-(q as int)) * (d as int) == -((d as int) * (q as int)))
                    by (nonlinear_arith) {}
                lemma_fundamental_div_mod_converse(p as int, d as int, -(q as int), 0);
            }
            0
        } else {
            proof {
                assert((-(q as int) - 1) * (d as int) == -((d as int) * (q as int)) - (d as int))
                    by (nonlinear_arith) {}
                lemma_fundamental_div_mod_converse(
                    p as int, d as int, -(q as int) - 1, (d as int) - (r0 as int));
            }
            d - (r0 as i64)
        }
    }
}

/// Fill `out` with a sine wave from a running phase accumulator.  Each
/// element becomes the seventh-order odd-polynomial sine of the
/// range-reduced current phase; the phase advances by `inc` per sample
/// and is re-centered whenever it leaves `[-2π, 2π]`, so it never drifts
/// without bound.
pub fn fill_sine(out: &mut Vec<i64>, phase: &mut i64, inc: i64)
    requires
        iabs(*old(phase) as int) <= 2 * (TWO_PI as int),
        iabs(inc as int) <= TWO_PI,
    ensures
        final(out)@.len() == old(out)@.len(),
        forall|i: int| 0 <= i < final(out)@.len() ==>
            #[trigger] final(out)@[i] as int
                == fill_sample_s(fill_phase_after_s(*old(phase) as int, inc as int, i as nat)),
        *final(phase) == fill_phase_after_s(
            *old(phase) as int, inc as int, old(out)@.len() as nat),
        iabs(*final(phase) as int) <= 2 * (TWO_PI as int),
{
    let n = out.len();
    let mut i: usize = 0;
    while i < n
        invariant
            0 <= i <= n,
            n == out@.len() == old(out)@.len(),
            iabs(inc as int) <= TWO_PI,
            iabs(*phase as int) <= 2 * (TWO_PI as int),
            *phase == fill_phase_after_s(*old(phase) as int, inc as int, i as nat),
            forall|j: int| 0 <= j < i ==>
                #[trigger] out@[j] as int
                    == fill_sample_s(fill_phase_after_s(*old(phase) as int, inc as int, j as nat)),
        decreases n - i,
    {
        let xr = emod(*phase + PI_Q, TWO_PI) - PI_Q;
        proof {
            assert(iabs(xr as int) <= 0x400000000);
        }
        let s = sin7(xr);
        out.set(i, s);
        let q = *phase + inc;
        if q > TWO_PI || q < -TWO_PI {
            let m = emod(q + PI_Q, TWO_PI);
            *phase = m - PI_Q;
        } else {
            *phase = q;
        }
        proof {
            assert(*phase == fill_phase_step_s(
                fill_phase_after_s(*old(phase) as int, inc as int, i as nat), inc as int));
            assert(fill_phase_after_s(*old(phase) as int, inc as int, (i + 1) as nat)
                == fill_phase_step_s(
                    fill_phase_after_s(*old(phase) as int, inc as int, i as nat), inc as int));
        }
        i = i + 1;
    }
}

} // verus!
