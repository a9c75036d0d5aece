//! The bundled scene: a slowly evolving drone.
//!
//! Two detuned oscillators (triangle and saw around an intentionally
//! beating interval), a very slow cutoff LFO, a stochastic detune drift,
//! a gentle one-pole low-pass, mild saturation, the reverb tank and a
//! smoothed output gain, hard-clamped to `[-1, 1]` at the output.

use vstd::prelude::*;
use crate::fixed::{
    ONE, SR_MAX, iabs, qmul_s, div_down, clamp_s, clamp_sr_s, clamp_q, clamp_sr, qmul,
    div_trunc, lemma_mul_le, lemma_qmul_unit, lemma_qmul_unit_abs, lemma_qmul_bound,
    lemma_qmul_one,
};
use crate::qmath::{HALF, exp2_s, exp2q, lemma_exp2_range};
use crate::dsp::{one_pole_coeff_ms_s, saturate, soft_clip_s};
use crate::filters::OnePoleLP;
use crate::nodes::{
    Osc, Lfo, NoiseMod, Wave, OnePoleSmoother, osc_sample_s, lemma_osc_sample_bound, FREQ_MAX,
};
use crate::reverb::{ReverbLite, ReverbModel};
use crate::graph::Generator;

verus! {

/// Base frequency of the first oscillator: 110 Hz in Q32.32.
pub const FREQ_A: i64 = 472446402560;

/// Base frequency of the second oscillator: `110·0.498` Hz in Q32.32, an
/// intentionally dissonant, beating interval below the first.
pub const FREQ_B: i64 = 235278308475;

/// The cutoff LFO rate: 0.05 Hz (about a 20 s period).
pub const LFO_RATE: i64 = 214748365;

/// The floor of the modulated cutoff: 80 Hz in Q32.32.
pub const CUT_FLOOR: i64 = 343597383680;

/// The floor of the base-cutoff control: 50 Hz in Q32.32.
pub const CUT_BASE_MIN: i64 = 214748364800;

/// Drive clamp range: `[0.1, 5.0]` in Q32.32.
pub const DRIVE_MIN: i64 = 429496730;
pub const DRIVE_MAX: i64 = 21474836480;

/// Detune clamp ceiling: 25 cents in Q32.32.
pub const DETUNE_MAX: i64 = 107374182400;

/// The ghost model of the scene: every sub-component's state plus the
/// scalar parameters.
#[verifier::ext_equal]
pub struct SceneModel {
    pub osc_a: Osc,
    pub osc_b: Osc,
    pub lfo: Osc,
    pub drift: NoiseMod,
    pub lp: OnePoleLP,
    pub rev: ReverbModel,
    pub sr: u32,
    pub base_cut: i64,
    pub cut_span: i64,
    pub detune_cents: i64,
    pub drive: i64,
    pub out_gain: i64,
    pub gain_sm: OnePoleSmoother,
}

/// The slow-drone scene.
#[derive(Clone, Debug)]
pub struct Scene {
    /// First tone source (triangle at 110 Hz).
    pub osc_a: Osc,
    /// Second tone source (saw, a beating interval below).
    pub osc_b: Osc,
    /// Very slow sine LFO driving the cutoff and part of the detune.
    pub lfo_cut: Lfo,
    /// Slow stochastic detune drift in cents.
    pub drift_detune: NoiseMod,
    /// Tone-shaping low-pass.
    pub lp: OnePoleLP,
    /// The reverb tank.
    pub rev: ReverbLite,
    /// Sample rate in Hz, clamped into `[1, SR_MAX]`.
    pub sr: u32,
    /// Base cutoff in Q32.32 Hz, at least 50 Hz.
    pub base_cut: i64,
    /// Cutoff modulation span in Q32.32 Hz, nonnegative.
    pub cut_span: i64,
    /// LFO detune depth in Q32.32 cents, in `[0, 25]`.
    pub detune_cents: i64,
    /// Saturation drive in `[0.1, 5.0]`.
    pub drive: i64,
    /// Output gain in `[0, 1]`.
    pub out_gain: i64,
    /// Output-gain smoother (30 ms).
    pub gain_sm: OnePoleSmoother,
}

impl Scene {
    /// The scene's ghost model.
    pub open spec fn model(&self) -> SceneModel {
        SceneModel {
            osc_a: self.osc_a,
            osc_b: self.osc_b,
            lfo: self.lfo_cut.0,
            drift: self.drift_detune,
            lp: self.lp,
            rev: self.rev.model(),
            sr: self.sr,
            base_cut: self.base_cut,
            cut_span: self.cut_span,
            detune_cents: self.detune_cents,
            drive: self.drive,
            out_gain: self.out_gain,
            gain_sm: self.gain_sm,
        }
    }

    /// Well-formed: all sub-components sound and rated at the scene's own
    /// clamped sample rate, oscillator and LFO gains at unity, parameters
    /// inside their clamp ranges.
    pub open spec fn wf(&self) -> bool {
        &&& 1 <= self.sr <= SR_MAX
        &&& self.osc_a.wf() && self.osc_a.gain == ONE
        &&& self.osc_b.wf() && self.osc_b.gain == ONE
        &&& self.lfo_cut.wf() && self.lfo_cut.0.gain == ONE
        &&& self.drift_detune.wf()
        &&& self.lp.wf() && self.lp.sr == self.sr
        &&& self.rev.wf() && self.rev.sr == self.sr
        &&& CUT_BASE_MIN <= self.base_cut <= FREQ_MAX
        &&& 0 <= self.cut_span <= FREQ_MAX
        &&& 0 <= self.detune_cents <= DETUNE_MAX
        &&& DRIVE_MIN <= self.drive <= DRIVE_MAX
        &&& 0 <= self.out_gain <= ONE
        &&& self.gain_sm.wf()
    }

    /// Construct the default slow-drone scene for sample rate `sr`.
    pub fn slow_drone(sr: u32) -> (r: Scene)
        ensures
            r.wf(),
            r.sr == clamp_sr_s(sr as int),
            r.osc_a.freq == FREQ_A && r.osc_a.wave is Tri && r.osc_a.phase == 0,
            r.osc_b.freq == FREQ_B && r.osc_b.wave is Saw && r.osc_b.phase == 0,
            r.lfo_cut.0.freq == LFO_RATE && r.lfo_cut.0.wave is Sine,
            r.drift_detune.low == -25769803776i64 && r.drift_detune.high == 25769803776i64,
            r.drift_detune.period_s == 32212254720i64,
            r.lp.fc == 3865470566400i64 && r.lp.sr == r.sr,
            r.base_cut == 3865470566400i64,
            r.cut_span == 2576980377600i64,
            r.detune_cents == 12884901888i64,
            r.drive == 3865470566i64,
            r.out_gain == 1417339208i64,
            r.gain_sm.y == 1417339208i64,
            r.gain_sm.a == one_pole_coeff_ms_s(128849018880, clamp_sr_s(sr as int)),
            r.rev.room == 2576980378i64 && r.rev.damp == 1717986918i64
                && r.rev.mix == 1073741824i64,
    {
        let mut s = Scene {
            osc_a: Osc::new(FREQ_A, Wave::Tri),
            osc_b: Osc::new(FREQ_B, Wave::Saw),
            lfo_cut: Lfo::sine(LFO_RATE),
            drift_detune: NoiseMod::new(-25769803776, 25769803776, 32212254720, 1073741824, sr),
            lp: OnePoleLP::new(3865470566400, sr),
            rev: ReverbLite::new(sr),
            sr: clamp_sr(sr),
            base_cut: 3865470566400,
            cut_span: 2576980377600,
            detune_cents: 12884901888,
            drive: 3865470566,
            out_gain: 1417339208,
            gain_sm: OnePoleSmoother::new_ms(128849018880, sr),
        };
        s.gain_sm.reset(s.out_gain);
        s
    }

    /// Set the base low-pass cutoff, clamped into `[50 Hz, FREQ_MAX]`.
    pub fn set_cut_base(&mut self, hz: i64)
        requires
            old(self).wf(),
        ensures
            final(self).wf(),
            *final(self) == (Scene {
                base_cut: clamp_s(hz as int, CUT_BASE_MIN as int, FREQ_MAX as int) as i64,
                ..*old(self)
            }),
    {
        self.base_cut = clamp_q(hz, CUT_BASE_MIN, FREQ_MAX);
    }

    /// Set the cutoff modulation span, clamped into `[0, FREQ_MAX]`.
    pub fn set_cut_span(&mut self, hz: i64)
        requires
            old(self).wf(),
        ensures
            final(self).wf(),
            *final(self) == (Scene {
                cut_span: clamp_s(hz as int, 0, FREQ_MAX as int) as i64,
                ..*old(self)
            }),
    {
        self.cut_span = clamp_q(hz, 0, FREQ_MAX);
    }

    /// Set the saturation drive, clamped into `[0.1, 5.0]`.
    pub fn set_drive(&mut self, d: i64)
        requires
            old(self).wf(),
        ensures
            final(self).wf(),
            *final(self) == (Scene {
                drive: clamp_s(d as int, DRIVE_MIN as int, DRIVE_MAX as int) as i64,
                ..*old(self)
            }),
    {
        self.drive = clamp_q(d, DRIVE_MIN, DRIVE_MAX);
    }

    /// Set the output gain, clamped into `[0, 1]`.
    pub fn set_gain(&mut self, g: i64)
        requires
            old(self).wf(),
        ensures
            final(self).wf(),
            *final(self) == (Scene {
                out_gain: clamp_s(g as int, 0, ONE as int) as i64,
                ..*old(self)
            }),
    {
        self.out_gain = clamp_q(g, 0, ONE);
    }

    /// Set the LFO detune depth in cents, clamped into `[0, 25]`.
    pub fn set_detune_cents(&mut self, c: i64)
        requires
            old(self).wf(),
        ensures
            final(self).wf(),
            *final(self) == (Scene {
                detune_cents: clamp_s(c as int, 0, DETUNE_MAX as int) as i64,
                ..*old(self)
            }),
    {
        self.detune_cents = clamp_q(c, 0, DETUNE_MAX);
    }

    /// `2^(cents/1200)`: the frequency ratio a detune in cents dictates.
    pub open spec fn cents_to_ratio_s(c: int) -> int {
        exp2_s(div_down(c, 1200))
    }

    /// Compute the frequency ratio for a detune in Q32.32 cents.
    pub fn cents_to_ratio(c: i64) -> (r: i64)
        ensures
            r == Self::cents_to_ratio_s(c as int),
            0 <= r < 0x20000000000000,
    {
        proof {
            lemma_exp2_range(div_down(c as int, 1200));
        }
        exp2q(div_trunc(c, 1200))
    }

    /// One whole scene step: advance the LFO, derive and push the
    /// modulated cutoff, advance the drift and re-tune both oscillators,
    /// mix them at half gain, low-pass, saturate, reverberate, apply the
    /// smoothed output gain and hard-clamp.
    pub open spec fn step_s(m: SceneModel) -> (SceneModel, int) {
        let sr = m.sr as int;
        let lfo1 = Osc { phase: Osc::phase_step_s(m.lfo, sr) as i64, ..m.lfo };
        let lfo_norm = qmul_s(osc_sample_s(lfo1.phase as int, lfo1.wave), lfo1.gain as int);
        let lfo01 = qmul_s(HALF as int, lfo_norm + ONE);
        let sway = 2 * (lfo01 - HALF);
        let cut = m.base_cut + qmul_s(sway, m.cut_span as int);
        let cutc: int = if cut < CUT_FLOOR { CUT_FLOOR as int } else { cut };
        let lp1 = OnePoleLP {
            fc: cutc as i64,
            a: OnePoleLP::coeff_s(cutc, m.lp.sr as int) as i64,
            ..m.lp
        };
        let dn = NoiseMod::step_s(m.drift, sr);
        let drift_cents = dn.1;
        let lfo_cents = qmul_s(sway, m.detune_cents as int);
        let ra = Self::cents_to_ratio_s(drift_cents + qmul_s(HALF as int, lfo_cents));
        let rb = Self::cents_to_ratio_s(-drift_cents + lfo_cents);
        let fa = clamp_s(qmul_s(FREQ_A as int, ra), 0, FREQ_MAX as int);
        let fb = clamp_s(qmul_s(FREQ_B as int, rb), 0, FREQ_MAX as int);
        let oa = Osc {
            freq: fa as i64,
            phase: Osc::phase_step_s(Osc { freq: fa as i64, ..m.osc_a }, sr) as i64,
            ..m.osc_a
        };
        let ob = Osc {
            freq: fb as i64,
            phase: Osc::phase_step_s(Osc { freq: fb as i64, ..m.osc_b }, sr) as i64,
            ..m.osc_b
        };
        let sa = qmul_s(osc_sample_s(oa.phase as int, oa.wave), oa.gain as int);
        let sb = qmul_s(osc_sample_s(ob.phase as int, ob.wave), ob.gain as int);
        let x = qmul_s(HALF as int, sa + sb);
        let tone = lp1.y + qmul_s(lp1.a as int, x - lp1.y);
        let lp2 = OnePoleLP { y: tone as i64, ..lp1 };
        let sat = soft_clip_s(qmul_s(tone, m.drive as int));
        let rv = ReverbLite::step_s(m.rev, sat);
        let g = m.gain_sm.y + qmul_s(m.out_gain - m.gain_sm.y, (ONE - m.gain_sm.a) as int);
        let gs = OnePoleSmoother { y: g as i64, ..m.gain_sm };
        let out = clamp_s(qmul_s(rv.1, g), -(ONE as int), ONE as int);
        (SceneModel {
            osc_a: oa,
            osc_b: ob,
            lfo: lfo1,
            drift: dn.0,
            lp: lp2,
            rev: rv.0,
            gain_sm: gs,
            ..m
        }, out)
    }

    /// The model after a reset to rate `sr`: every dependent coefficient
    /// re-derived, no sub-component left at the old rate.
    pub open spec fn reset_s(m: SceneModel, sr0: int) -> SceneModel {
        let sr = clamp_sr_s(sr0);
        SceneModel {
            sr: sr as u32,
            lp: OnePoleLP {
                sr: sr as u32,
                a: OnePoleLP::coeff_s(m.lp.fc as int, sr) as i64,
                ..m.lp
            },
            lfo: Osc { freq: LFO_RATE, ..m.lfo },
            drift: NoiseMod {
                lp: OnePoleLP {
                    sr: sr as u32,
                    a: OnePoleLP::coeff_s(m.drift.lp.fc as int, sr) as i64,
                    ..m.drift.lp
                },
                ..m.drift
            },
            rev: ReverbLite::reset_s(m.rev, sr0),
            gain_sm: OnePoleSmoother {
                a: one_pole_coeff_ms_s(128849018880, sr) as i64,
                ..m.gain_sm
            },
            ..m
        }
    }

    fn do_reset(&mut self, sr: u32)
        requires
            old(self).wf(),
        ensures
            final(self).wf(),
            final(self).model() == Self::reset_s(old(self).model(), sr as int),
            final(self).sr == clamp_sr_s(sr as int),
    {
        self.sr = clamp_sr(sr);
        self.lp.set_sample_rate(self.sr);
        self.lfo_cut.set_rate(LFO_RATE);
        self.drift_detune.reset_sr(self.sr);
        self.rev.reset(self.sr);
        self.gain_sm.set_time_ms(128849018880, self.sr);
        proof {
            assert(clamp_sr_s(clamp_sr_s(sr as int)) == clamp_sr_s(sr as int));
        }
    }

    #[verifier::rlimit(100)]
    fn tick(&mut self) -> (s: i64)
        requires
            old(self).wf(),
        ensures
            final(self).wf(),
            (final(self).model(), s as int) == Self::step_s(old(self).model()),
            final(self).sr == old(self).sr,
            -ONE <= s <= ONE,
    {
        let sr = self.sr;
        let lfo01 = self.lfo_cut.next01(sr);
        proof {
            lemma_osc_sample_bound(self.lfo_cut.0.phase as int, self.lfo_cut.0.wave);
            lemma_qmul_one(osc_sample_s(self.lfo_cut.0.phase as int, self.lfo_cut.0.wave));
            lemma_mul_le(HALF as int,
                qmul_s(osc_sample_s(self.lfo_cut.0.phase as int, self.lfo_cut.0.wave),
                    ONE as int) + ONE, 0x80000000, 0x200000000);
            lemma_qmul_bound(HALF as int,
                qmul_s(osc_sample_s(self.lfo_cut.0.phase as int, self.lfo_cut.0.wave),
                    ONE as int) + ONE, 0x80000000, 0x200000000);
            crate::fixed::lemma_mul_sign_abs(HALF as int,
                qmul_s(osc_sample_s(self.lfo_cut.0.phase as int, self.lfo_cut.0.wave),
                    ONE as int) + ONE);
            crate::fixed::lemma_div_down_abs((HALF as int)
                * (qmul_s(osc_sample_s(self.lfo_cut.0.phase as int, self.lfo_cut.0.wave),
                    ONE as int) + ONE), ONE as int);
        }
        let sway = 2 * (lfo01 - HALF);
        proof {
            assert(0 <= lfo01 <= ONE);
            assert(iabs(sway as int) <= ONE);
            lemma_mul_le(sway as int, self.cut_span as int, 0x100000000, 0x10000000000000);
            lemma_qmul_unit_abs(sway as int, self.cut_span as int);
        }
        let cut = self.base_cut + qmul(sway, self.cut_span);
        let cutc = if cut < CUT_FLOOR { CUT_FLOOR } else { cut };
        self.lp.set_cutoff_hz(cutc);
        let drift_cents = self.drift_detune.next(sr);
        proof {
            lemma_mul_le(sway as int, self.detune_cents as int, 0x100000000, 0x1900000000);
            lemma_qmul_unit_abs(sway as int, self.detune_cents as int);
        }
        let lfo_cents = qmul(sway, self.detune_cents);
        proof {
            lemma_mul_le(HALF as int, lfo_cents as int, 0x80000000, 0x1900000000);
            lemma_qmul_unit(HALF as int, lfo_cents as int);
            lemma_qmul_unit_abs(HALF as int, lfo_cents as int);
        }
        let half_lfo = qmul(HALF, lfo_cents);
        let ra = Self::cents_to_ratio(drift_cents + half_lfo);
        let rb = Self::cents_to_ratio(-drift_cents + lfo_cents);
        proof {
            lemma_mul_le(FREQ_A as int, ra as int, 0x6E00000000, 0x20000000000000);
            lemma_qmul_bound(FREQ_A as int, ra as int, 0x6E00000000, 0x20000000000000);
            lemma_mul_le(FREQ_B as int, rb as int, 0x6E00000000, 0x20000000000000);
            lemma_qmul_bound(FREQ_B as int, rb as int, 0x6E00000000, 0x20000000000000);
        }
        let fa = clamp_q(qmul(FREQ_A, ra), 0, FREQ_MAX);
        let fb = clamp_q(qmul(FREQ_B, rb), 0, FREQ_MAX);
        self.osc_a.set_freq(fa);
        self.osc_b.set_freq(fb);
        let va = self.osc_a.next(sr);
        let vb = self.osc_b.next(sr);
        proof {
            lemma_osc_sample_bound(self.osc_a.phase as int, self.osc_a.wave);
            lemma_osc_sample_bound(self.osc_b.phase as int, self.osc_b.wave);
            lemma_qmul_one(osc_sample_s(self.osc_a.phase as int, self.osc_a.wave));
            lemma_qmul_one(osc_sample_s(self.osc_b.phase as int, self.osc_b.wave));
            assert(iabs(va as int) <= ONE);
            assert(iabs(vb as int) <= ONE);
            lemma_mul_le(HALF as int, (va + vb) as int, 0x80000000, 0x200000000);
            lemma_qmul_unit(HALF as int, (va + vb) as int);
            lemma_qmul_bound(HALF as int, (va + vb) as int, 0x80000000, 0x200000000);
            crate::fixed::lemma_mul_sign_abs(HALF as int, (va + vb) as int);
            crate::fixed::lemma_div_down_abs((HALF as int) * ((va + vb) as int), ONE as int);
        }
        let x = qmul(HALF, va + vb);
        proof {
            assert(iabs(x as int) <= ONE);
        }
        let tone = self.lp.process(x);
        let sat = saturate(tone, self.drive);
        let wet = self.rev.process(sat);
        let g = self.gain_sm.process(self.out_gain);
        proof {
            lemma_mul_le(wet as int, g as int, 0x200000000000, 0x200000000000);
            lemma_qmul_bound(wet as int, g as int, 0x200000000000, 0x200000000000);
        }
        clamp_q(qmul(wet, g), -ONE, ONE)
    }
}

impl Generator for Scene {
    /// The scene's invariant is its well-formedness.
    open spec fn inv(&self) -> bool {
        self.wf()
    }

    /// The rate the scene's coefficients are derived for.
    open spec fn rate(&self) -> u32 {
        self.sr
    }

    /// Re-derive every dependent coefficient for sample rate `sr`: the
    /// low-pass, the LFO rate, the drift smoother, the whole reverb tank
    /// and the gain smoother.
    fn reset(&mut self, sr: u32)
        ensures
            final(self).model() == Self::reset_s(old(self).model(), sr as int),
    {
        self.do_reset(sr);
    }

    /// Produce the next mono sample of the drone.
    fn next(&mut self) -> (s: i64)
        ensures
            (final(self).model(), s as int) == Self::step_s(old(self).model()),
    {
        self.tick()
    }
}

} // verus!
