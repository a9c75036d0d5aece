//! Scene building blocks: oscillators, an LFO, a slow stochastic drift
//! modulator, a parameter smoother, a two-input mixer and a constant-power
//! panner.
//!
//! Frequencies are Q32.32 Hz; stepping methods take the current sample
//! rate in integer Hz.  Phases live in `[0, ONE)` and wrap every tick.

use vstd::prelude::*;
use vstd::arithmetic::div_mod::lemma_div_is_ordered;
use crate::fixed::{
    ONE, SIG, iabs, qmul_s, clamp_s, clamp_sr_s, clamp_q, clamp_sr, qmul, isqrt,
    lemma_mul_le, lemma_qmul_unit, lemma_qmul_bound, lemma_qmul_comm, lemma_qmul_unit_abs,
};
use crate::qmath::{
    HALF, wrap01_s, wrap01, sin01_s, sin01, sin_quarter_s, sin_quarter, lemma_sin01_bound,
};
use crate::dsp::{one_pole_coeff_ms_s, one_pole_coeff_ms};
use crate::filters::OnePoleLP;

verus! {

/// The largest accepted oscillator frequency, `2^20` Hz in Q32.32.
pub const FREQ_MAX: i64 = 4503599627370496;

/// Oscillator waveform.
#[derive(Clone, Copy, Debug)]
pub enum Wave {
    Sine,
    Tri,
    Saw,
}

/// The waveform evaluated at a wrapped phase: a polynomial sine, a naive
/// triangle `4·|p - ½| - 1`, or a naive saw `2p - 1`.
pub open spec fn osc_sample_s(phase01: int, wave: Wave) -> int {
    match wave {
        Wave::Sine => sin01_s(phase01),
        Wave::Tri => 4 * iabs(phase01 - HALF) - ONE,
        Wave::Saw => 2 * phase01 - ONE,
    }
}

/// A waveform sample at a wrapped phase lies inside `[-ONE, ONE]`.
pub proof fn lemma_osc_sample_bound(p: int, w: Wave)
    requires
        0 <= p < ONE,
    ensures
        -(ONE as int) <= osc_sample_s(p, w) <= ONE as int,
{
    match w {
        Wave::Sine => {
            lemma_sin01_bound(p);
        },
        Wave::Tri => {},
        Wave::Saw => {},
    }
}

/// Evaluate a waveform at a wrapped phase.
fn osc_sample(phase01: i64, wave: Wave) -> (r: i64)
    requires
        0 <= phase01 < ONE,
    ensures
        r == osc_sample_s(phase01 as int, wave),
        -ONE <= r <= ONE,
{
    match wave {
        Wave::Sine => sin01(phase01),
        Wave::Tri => {
            let d = if phase01 >= HALF { phase01 - HALF } else { HALF - phase01 };
            4 * d - ONE
        },
        Wave::Saw => 2 * phase01 - ONE,
    }
}

/// Free-running oscillator with stable phase wrap.  Not anti-aliased; fine
/// for drones and LFO duty.
#[derive(Clone, Copy, Debug)]
pub struct Osc {
    /// Phase in `[0, ONE)`.
    pub phase: i64,
    /// Frequency in Q32.32 Hz, in `[0, FREQ_MAX]`.
    pub freq: i64,
    /// Selected waveform.
    pub wave: Wave,
    /// Output gain, in `[0, SIG]`.
    pub gain: i64,
}

impl Osc {
    /// Well-formed: wrapped phase, clamped frequency and gain.
    pub open spec fn wf(&self) -> bool {
        &&& 0 <= self.phase < ONE
        &&& 0 <= self.freq <= FREQ_MAX
        &&& 0 <= self.gain <= SIG
    }

    /// A fresh oscillator at `freq_hz` (Q32.32 Hz) with unit gain.
    pub fn new(freq_hz: i64, wave: Wave) -> (r: Osc)
        ensures
            r.wf(),
            r.phase == 0,
            r.freq == clamp_s(freq_hz as int, 0, FREQ_MAX as int),
            r.gain == ONE,
            r.wave == wave,
    {
        Osc { phase: 0, freq: clamp_q(freq_hz, 0, FREQ_MAX), wave, gain: ONE }
    }

    /// Change the frequency, clamped into `[0, FREQ_MAX]`.
    pub fn set_freq(&mut self, hz: i64)
        requires
            old(self).wf(),
        ensures
            final(self).wf(),
            *final(self) == (Osc { freq: clamp_s(hz as int, 0, FREQ_MAX as int) as i64, ..*old(self) }),
    {
        self.freq = clamp_q(hz, 0, FREQ_MAX);
    }

    /// Change the gain, clamped into `[0, SIG]`.
    pub fn set_gain(&mut self, g: i64)
        requires
            old(self).wf(),
        ensures
            final(self).wf(),
            *final(self) == (Osc { gain: clamp_s(g as int, 0, SIG as int) as i64, ..*old(self) }),
    {
        self.gain = clamp_q(g, 0, SIG);
    }

    /// Change the waveform.
    pub fn set_wave(&mut self, w: Wave)
        requires
            old(self).wf(),
        ensures
            final(self).wf(),
            *final(self) == (Osc { wave: w, ..*old(self) }),
    {
        self.wave = w;
    }

    /// The wrapped phase after one step at rate `sr`.
    pub open spec fn phase_step_s(s: Osc, sr: int) -> int {
        wrap01_s(s.phase + (s.freq as int) / sr)
    }

    /// Advance one sample: wrap the phase forward by `freq/sr`, evaluate
    /// the waveform there, scale by the gain.
    pub fn next(&mut self, sr: u32) -> (r: i64)
        requires
            old(self).wf(),
            1 <= sr,
        ensures
            final(self).wf(),
            final(self).phase == Self::phase_step_s(*old(self), sr as int),
            final(self).freq == old(self).freq,
            final(self).wave == old(self).wave,
            final(self).gain == old(self).gain,
            r == qmul_s(osc_sample_s(final(self).phase as int, final(self).wave),
                final(self).gain as int),
            iabs(r as int) <= SIG,
    {
        let inc: i64 = ((self.freq as u64) / (sr as u64)) as i64;
        proof {
            lemma_div_is_ordered(self.freq as int, FREQ_MAX as int, sr as int);
        }
        self.phase = wrap01(self.phase + inc);
        let s = osc_sample(self.phase, self.wave);
        proof {
            lemma_mul_le(s as int, self.gain as int, 0x100000000, 0x200000000000);
            lemma_qmul_unit_abs(s as int, self.gain as int);
        }
        qmul(s, self.gain)
    }

    /// Hard-set the phase; values at or above one are wrapped, negative
    /// ones go to zero.
    pub fn set_phase01(&mut self, p: i64)
        requires
            old(self).wf(),
        ensures
            final(self).wf(),
            *final(self) == (Osc {
                phase: if p >= ONE { wrap01_s(p as int) as i64 } else if p < 0 { 0i64 } else { p },
                ..*old(self)
            }),
    {
        self.phase = if p >= ONE {
            wrap01(p)
        } else if p < 0 {
            0
        } else {
            p
        };
    }
}

/// Low-frequency oscillator: the same core as [`Osc`], with outputs
/// normalized to `[-1, 1]` and `[0, 1]`.
#[derive(Clone, Copy, Debug)]
pub struct Lfo(pub Osc);

impl Lfo {
    /// Well-formed when the inner oscillator is.
    pub open spec fn wf(&self) -> bool {
        self.0.wf()
    }

    /// A sine LFO at `rate_hz` (Q32.32 Hz).
    pub fn sine(rate_hz: i64) -> (r: Lfo)
        ensures
            r.wf(),
            r.0.phase == 0,
            r.0.freq == clamp_s(rate_hz as int, 0, FREQ_MAX as int),
            r.0.gain == ONE,
            r.0.wave is Sine,
    {
        Lfo(Osc::new(rate_hz, Wave::Sine))
    }

    /// A triangle LFO at `rate_hz` (Q32.32 Hz).
    pub fn tri(rate_hz: i64) -> (r: Lfo)
        ensures
            r.wf(),
            r.0.phase == 0,
            r.0.freq == clamp_s(rate_hz as int, 0, FREQ_MAX as int),
            r.0.gain == ONE,
            r.0.wave is Tri,
    {
        Lfo(Osc::new(rate_hz, Wave::Tri))
    }

    /// A saw LFO at `rate_hz` (Q32.32 Hz).
    pub fn saw(rate_hz: i64) -> (r: Lfo)
        ensures
            r.wf(),
            r.0.phase == 0,
            r.0.freq == clamp_s(rate_hz as int, 0, FREQ_MAX as int),
            r.0.gain == ONE,
            r.0.wave is Saw,
    {
        Lfo(Osc::new(rate_hz, Wave::Saw))
    }

    /// Next LFO value, nominally in `[-1, 1]`.
    pub fn next_norm(&mut self, sr: u32) -> (r: i64)
        requires
            old(self).wf(),
            1 <= sr,
        ensures
            final(self).wf(),
            final(self).0.phase == Osc::phase_step_s(old(self).0, sr as int),
            final(self).0.freq == old(self).0.freq,
            final(self).0.wave == old(self).0.wave,
            final(self).0.gain == old(self).0.gain,
            r == qmul_s(osc_sample_s(final(self).0.phase as int, final(self).0.wave),
                final(self).0.gain as int),
            iabs(r as int) <= SIG,
    {
        self.0.next(sr)
    }

    /// Next LFO value remapped to `[0, 1]`: `(v + 1)/2`.
    pub fn next01(&mut self, sr: u32) -> (r: i64)
        requires
            old(self).wf(),
            1 <= sr,
        ensures
            final(self).wf(),
            final(self).0.phase == Osc::phase_step_s(old(self).0, sr as int),
            final(self).0.freq == old(self).0.freq,
            final(self).0.wave == old(self).0.wave,
            final(self).0.gain == old(self).0.gain,
            r == qmul_s(HALF as int,
                qmul_s(osc_sample_s(final(self).0.phase as int, final(self).0.wave),
                    final(self).0.gain as int) + ONE),
            iabs(r as int) <= SIG,
    {
        let v = self.0.next(sr);
        proof {
            lemma_mul_le(HALF as int, (v + ONE) as int, 0x80000000, 0x300000000000);
            lemma_qmul_unit(HALF as int, (v + ONE) as int);
        }
        qmul(HALF, v + ONE)
    }

    /// Change the LFO rate.
    pub fn set_rate(&mut self, hz: i64)
        requires
            old(self).wf(),
        ensures
            final(self).wf(),
            final(self).0 == (Osc {
                freq: clamp_s(hz as int, 0, FREQ_MAX as int) as i64, ..old(self).0
            }),
    {
        self.0.set_freq(hz);
    }

    /// Hard-set the LFO phase.
    pub fn set_phase01(&mut self, p: i64)
        requires
            old(self).wf(),
        ensures
            final(self).wf(),
            final(self).0 == (Osc {
                phase: if p >= ONE { wrap01_s(p as int) as i64 } else if p < 0 { 0i64 } else { p },
                ..old(self).0
            }),
    {
        self.0.set_phase01(p);
    }
}

/// The deterministic hash from a Q32.32 time value to a unit fraction in
/// `[0, ONE)`: a 64-bit multiply/add scramble, folded once, read out from
/// the high half.
pub open spec fn hash01_s(t: u64) -> u64 {
    let a = (((t as nat) * 6364136223846793005) % 0x10000000000000000) as u64;
    let b = (((a as nat) + 1442695040888963407) % 0x10000000000000000) as u64;
    let c = b ^ (b >> 29u64);
    let d = (((c as nat) * 2685821657736338717) % 0x10000000000000000) as u64;
    d >> 32u64
}

/// Hash a nonnegative Q32.32 time into `[0, ONE)`.
fn hash01(t: i64) -> (r: i64)
    requires
        0 <= t,
    ensures
        r == hash01_s(t as u64),
        0 <= r < ONE,
{
    let a: u64 = (t as u64).wrapping_mul(6364136223846793005u64);
    let b: u64 = a.wrapping_add(1442695040888963407u64);
    let c: u64 = b ^ (b >> 29u64);
    let d: u64 = c.wrapping_mul(2685821657736338717u64);
    let h: u64 = d >> 32u64;
    proof {
        assert(b == (((a as nat) + 1442695040888963407) % 0x10000000000000000) as u64) by {
            if a as nat + 1442695040888963407 > u64::MAX as nat {
                assert((a as nat + 1442695040888963407) % 0x10000000000000000
                    == a as nat + 1442695040888963407 - 0x10000000000000000);
            } else {
                assert((a as nat + 1442695040888963407) % 0x10000000000000000
                    == a as nat + 1442695040888963407);
            }
        }
        assert(h < 0x100000000) by (bit_vector)
            requires h == d >> 32u64,
        {}
    }
    h as i64
}

/// Slowly drifting random modulator: every `period_s` seconds a new
/// deterministic pseudo-random target in `[low, high]` is drawn from the
/// elapsed-time counter, and the (possibly stale) target is smoothed by a
/// one-pole low-pass every sample.
#[derive(Clone, Copy, Debug)]
pub struct NoiseMod {
    /// Lower end of the target range.
    pub low: i64,
    /// Upper end of the target range.
    pub high: i64,
    /// Re-pick period in Q32.32 seconds, at least `0.1`.
    pub period_s: i64,
    /// Seconds since the last pick, in Q32.32.
    pub t: i64,
    /// Current target.
    pub target: i64,
    /// Slewer over targets.
    pub lp: OnePoleLP,
}

impl NoiseMod {
    /// Well-formed: guarded range ends and target, bounded timer, sound
    /// smoother.
    pub open spec fn wf(&self) -> bool {
        &&& iabs(self.low as int) <= SIG
        &&& iabs(self.high as int) <= SIG
        &&& 429496729 <= self.period_s <= FREQ_MAX
        &&& 0 <= self.t <= self.period_s + ONE
        &&& iabs(self.target as int) <= SIG
        &&& self.lp.wf()
    }

    /// The target drawn for elapsed time `t`:
    /// `low + (high - low)·hash01(t)`.
    pub open spec fn pick_s(low: int, high: int, t: int) -> int {
        low + qmul_s(high - low, hash01_s(t as u64) as int)
    }

    fn pick_target(&mut self)
        requires
            iabs(old(self).low as int) <= SIG,
            iabs(old(self).high as int) <= SIG,
            0 <= old(self).t,
        ensures
            *final(self) == (NoiseMod {
                target: Self::pick_s(old(self).low as int, old(self).high as int,
                    old(self).t as int) as i64,
                t: 0,
                ..*old(self)
            }),
            iabs(final(self).target as int) <= SIG,
    {
        let u = hash01(self.t);
        proof {
            lemma_mul_le((self.high - self.low) as int, u as int, 0x400000000000, 0x100000000);
            lemma_qmul_comm((self.high - self.low) as int, u as int);
            lemma_qmul_unit(u as int, (self.high - self.low) as int);
        }
        self.target = self.low + qmul(self.high - self.low, u);
        self.t = 0;
    }

    /// A fresh modulator: target range `[low, high]`, re-pick period
    /// `period_s` (Q32.32 seconds, clamped to at least `0.1`), smoothing
    /// cutoff `cut_hz` (clamped to at least `0.01` Hz) at rate `sr`.
    pub fn new(low: i64, high: i64, period_s: i64, cut_hz: i64, sr: u32) -> (r: NoiseMod)
        requires
            iabs(low as int) <= SIG,
            iabs(high as int) <= SIG,
        ensures
            r.wf(),
            r.low == low,
            r.high == high,
            r.period_s == clamp_s(period_s as int, 429496729, FREQ_MAX as int),
            r.t == 0,
            r.target == Self::pick_s(low as int, high as int, 0) as i64,
            r.lp.sr == clamp_sr_s(sr as int),
            r.lp.fc == if cut_hz < 42949672 { 42949672int } else { cut_hz as int },
            r.lp.y == 0,
    {
        let mut s = NoiseMod {
            low,
            high,
            period_s: clamp_q(period_s, 429496729, FREQ_MAX),
            t: 0,
            target: 0,
            lp: OnePoleLP::new(if cut_hz < 42949672 { 42949672 } else { cut_hz }, sr),
        };
        s.pick_target();
        s
    }

    /// Re-derive the smoother's coefficient for a new sample rate.
    pub fn reset_sr(&mut self, sr: u32)
        requires
            old(self).wf(),
        ensures
            final(self).wf(),
            final(self).lp == (OnePoleLP {
                sr: clamp_sr_s(sr as int) as u32,
                a: OnePoleLP::coeff_s(old(self).lp.fc as int, clamp_sr_s(sr as int)) as i64,
                ..old(self).lp
            }),
            final(self).low == old(self).low,
            final(self).high == old(self).high,
            final(self).period_s == old(self).period_s,
            final(self).t == old(self).t,
            final(self).target == old(self).target,
    {
        self.lp.set_sample_rate(sr);
    }

    /// One whole modulator step: accumulate `1/sr` of elapsed time, draw
    /// a new target when the period elapses, then smooth the target.
    pub open spec fn step_s(n: NoiseMod, sr: int) -> (NoiseMod, int) {
        let t1 = n.t + (ONE as int) / sr;
        let n1 = if t1 >= n.period_s {
            NoiseMod {
                target: Self::pick_s(n.low as int, n.high as int, t1) as i64,
                t: 0,
                ..n
            }
        } else {
            NoiseMod { t: t1 as i64, ..n }
        };
        let y = n1.lp.y + qmul_s(n1.lp.a as int, n1.target - n1.lp.y);
        (NoiseMod { lp: OnePoleLP { y: y as i64, ..n1.lp }, ..n1 }, y)
    }

    /// Advance one sample: accumulate `1/sr` of elapsed time, draw a new
    /// target when the period elapses, and return the smoothed target.
    pub fn next(&mut self, sr: u32) -> (r: i64)
        requires
            old(self).wf(),
            1 <= sr,
        ensures
            final(self).wf(),
            (*final(self), r as int) == Self::step_s(*old(self), sr as int),
            r == final(self).lp.y,
            iabs(r as int) <= SIG,
            final(self).low == old(self).low,
            final(self).high == old(self).high,
            final(self).period_s == old(self).period_s,
    {
        let inc: i64 = ((ONE as u64) / (sr as u64)) as i64;
        proof {
            lemma_div_is_ordered(ONE as int, ONE as int, sr as int);
        }
        self.t = self.t + inc;
        if self.t >= self.period_s {
            self.pick_target();
        }
        let tgt = self.target;
        self.lp.process(tgt)
    }
}

/// One-pole parameter smoother: `y += (x - y)·(1 - a)` with
/// `a = exp(-1/(t·0.001·sr))`.
#[derive(Clone, Copy, Debug)]
pub struct OnePoleSmoother {
    /// Smoothing coefficient in `[0, ONE]`; closer to one is slower.
    pub a: i64,
    /// Current output value, inside the signal guard band.
    pub y: i64,
}

impl OnePoleSmoother {
    /// Well-formed: unit coefficient, guarded value.
    pub open spec fn wf(&self) -> bool {
        &&& 0 <= self.a <= ONE
        &&& iabs(self.y as int) <= SIG
    }

    /// A fresh smoother with time constant `t_ms` (Q32.32 ms) at rate `sr`.
    pub fn new_ms(t_ms: i64, sr: u32) -> (r: OnePoleSmoother)
        ensures
            r.wf(),
            r.a == one_pole_coeff_ms_s(t_ms as int, clamp_sr_s(sr as int)),
            r.y == 0,
    {
        OnePoleSmoother { a: one_pole_coeff_ms(t_ms, clamp_sr(sr)), y: 0 }
    }

    /// Hard-set the current value.
    pub fn reset(&mut self, y0: i64)
        requires
            iabs(y0 as int) <= SIG,
        ensures
            final(self).a == old(self).a,
            final(self).y == y0,
    {
        self.y = y0;
    }

    /// Re-time the smoother without touching its value.
    pub fn set_time_ms(&mut self, t_ms: i64, sr: u32)
        requires
            old(self).wf(),
        ensures
            final(self).wf(),
            final(self).a == one_pole_coeff_ms_s(t_ms as int, clamp_sr_s(sr as int)),
            final(self).y == old(self).y,
    {
        self.a = one_pole_coeff_ms(t_ms, clamp_sr(sr));
    }

    /// One smoothing step toward `x`.
    pub fn process(&mut self, x: i64) -> (r: i64)
        requires
            old(self).wf(),
            iabs(x as int) <= SIG,
        ensures
            final(self).wf(),
            final(self).a == old(self).a,
            final(self).y == old(self).y
                + qmul_s((x - old(self).y) as int, (ONE - old(self).a) as int),
            r == final(self).y,
            iabs(r as int) <= SIG,
    {
        proof {
            lemma_mul_le((x - self.y) as int, (ONE - self.a) as int, 0x400000000000, 0x100000000);
            lemma_qmul_comm((x - self.y) as int, (ONE - self.a) as int);
            lemma_qmul_unit((ONE - self.a) as int, (x - self.y) as int);
        }
        self.y = self.y + qmul(x - self.y, ONE - self.a);
        self.y
    }

    /// The current value.
    pub fn value(&self) -> (r: i64)
        ensures
            r == self.y,
    {
        self.y
    }
}

/// Two-input mixer with independent gains: `out = a·g1 + b·g2`.
#[derive(Clone, Copy, Debug)]
pub struct Mix2 {
    /// Gain of the first input, in `[-16, 16]`.
    pub g1: i64,
    /// Gain of the second input, in `[-16, 16]`.
    pub g2: i64,
}

impl Mix2 {
    /// Well-formed: gains within sixteen-fold headroom.
    pub open spec fn wf(&self) -> bool {
        &&& iabs(self.g1 as int) <= 16 * (ONE as int)
        &&& iabs(self.g2 as int) <= 16 * (ONE as int)
    }

    /// A fresh mixer; gains are clamped into `[-16, 16]`.
    pub fn new(g1: i64, g2: i64) -> (r: Mix2)
        ensures
            r.wf(),
            r.g1 == clamp_s(g1 as int, -16 * (ONE as int), 16 * (ONE as int)),
            r.g2 == clamp_s(g2 as int, -16 * (ONE as int), 16 * (ONE as int)),
    {
        Mix2 {
            g1: clamp_q(g1, -16 * ONE, 16 * ONE),
            g2: clamp_q(g2, -16 * ONE, 16 * ONE),
        }
    }

    /// Replace both gains, clamped into `[-16, 16]`.
    pub fn set(&mut self, g1: i64, g2: i64)
        ensures
            final(self).wf(),
            final(self).g1 == clamp_s(g1 as int, -16 * (ONE as int), 16 * (ONE as int)),
            final(self).g2 == clamp_s(g2 as int, -16 * (ONE as int), 16 * (ONE as int)),
    {
        self.g1 = clamp_q(g1, -16 * ONE, 16 * ONE);
        self.g2 = clamp_q(g2, -16 * ONE, 16 * ONE);
    }

    /// Mix two samples: `a·g1 + b·g2`.
    pub fn run(&self, a: i64, b: i64) -> (r: i64)
        requires
            self.wf(),
            iabs(a as int) <= SIG,
            iabs(b as int) <= SIG,
        ensures
            r == qmul_s(a as int, self.g1 as int) + qmul_s(b as int, self.g2 as int),
    {
        proof {
            lemma_mul_le(a as int, self.g1 as int, 0x200000000000, 0x1000000000);
            lemma_qmul_bound(a as int, self.g1 as int, 0x200000000000, 0x1000000000);
            lemma_mul_le(b as int, self.g2 as int, 0x200000000000, 0x1000000000);
            lemma_qmul_bound(b as int, self.g2 as int, 0x200000000000, 0x1000000000);
        }
        qmul(a, self.g1) + qmul(b, self.g2)
    }
}

/// Constant-power panner.
#[derive(Clone, Copy, Debug)]
pub struct PanLaw;

impl PanLaw {
    /// The right gain for `pan` in `[-1, 1]`: the quarter-wave sine of the
    /// normalized position, so that hard left gives 0 and hard right 1.
    pub open spec fn right_s(pan: int) -> int {
        sin_quarter_s((clamp_s(pan, -(ONE as int), ONE as int) + ONE) / 2)
    }

    /// Left and right gains for `pan` in `[-1, 1]` (hard left to hard
    /// right).  The right gain is the sine of the pan angle in `[0, π/2]`;
    /// the left gain is the exact complement `⌊sqrt(1 - right²)⌋`, so the
    /// two always satisfy the constant-power law to within one ulp:
    /// `left² + right² ∈ (ONE² - 2·ONE, ONE²]`.
    pub fn gains(pan: i64) -> (lr: (i64, i64))
        ensures
            lr.1 == Self::right_s(pan as int),
            0 <= lr.1 <= ONE,
            0 <= lr.0 <= ONE,
            (lr.0 as int) * (lr.0 as int) + (lr.1 as int) * (lr.1 as int)
                <= (ONE as int) * (ONE as int),
            (lr.0 as int) * (lr.0 as int) + (lr.1 as int) * (lr.1 as int)
                > (ONE as int) * (ONE as int) - 2 * (ONE as int),
    {
        let pc = clamp_q(pan, -ONE, ONE);
        let u: i64 = (((pc + ONE) as u64) / 2u64) as i64;
        let right = sin_quarter(u);
        proof {
            lemma_mul_le(right as int, right as int, 0x100000000, 0x100000000);
            assert((right as int) * (right as int) >= 0) by (nonlinear_arith)
                requires right as int >= 0,
            {}
            assert((ONE as int) * (ONE as int) == 0x10000000000000000) by (nonlinear_arith)
                requires ONE as int == 4294967296,
            {}
        }
        let rr: u128 = (right as u128) * (right as u128);
        let rest: u128 = ((ONE as u128) * (ONE as u128)) - rr;
        let left64 = isqrt(rest);
        proof {
            assert(left64 as int <= ONE) by {
                if left64 as int > ONE {
                    assert((left64 as int) * (left64 as int) > (ONE as int) * (ONE as int))
                        by (nonlinear_arith)
                        requires left64 as int > ONE as int, ONE as int > 0,
                    {}
                }
            }
            assert((left64 as int) * (left64 as int) + (right as int) * (right as int)
                > (ONE as int) * (ONE as int) - 2 * (ONE as int)) by {
                assert((rest as int) < ((left64 as int) + 1) * ((left64 as int) + 1));
                assert(((left64 as int) + 1) * ((left64 as int) + 1)
                    == (left64 as int) * (left64 as int) + 2 * (left64 as int) + 1)
                    by (nonlinear_arith) {}
            }
        }
        let left = left64 as i64;
        (left, right)
    }
}

} // verus!
