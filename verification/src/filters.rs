//! Filters: one-pole low-pass and high-pass, a DC blocker, and a
//! topology-preserving-transform state-variable filter.
//!
//! The one-poles use the inexpensive `y += a·(x - y)` form with
//! `a = 1 - exp(-2π·fc/sr)`; the SVF uses `g = tan(π·fc/sr)` and
//! `r = 1/(2Q)`.  Every `process` contract states the exact difference
//! equation, with feedback state held inside the `[-SIG, SIG]` guard band.

use vstd::prelude::*;

use crate::fixed::{
    ONE, SIG, SR_MAX, iabs, qmul_s, qdiv_s, clamp_s, clamp_sr_s, clamp_q, clamp_sr, qmul, qdiv,
    lemma_mul_le, lemma_mul_sign_abs, lemma_div_down_abs, lemma_qmul_unit, lemma_qmul_bound,
};
use crate::dsp::{
    one_pole_coeff_hz_s, one_pole_coeff_hz, lemma_one_pole_coeff_hz_range,
    tpt_g_s, tpt_g, kill_denormals,
};

verus! {

/// The smallest accepted quality factor: `1e-4` in Q32.32.
pub const Q_MIN: i64 = 429497;

/// One-pole low-pass `y += a·(x - y)` with `a = 1 - exp(-2π·fc/sr)`.
#[derive(Clone, Copy, Debug)]
pub struct OnePoleLP {
    /// Mixing coefficient in `[0, ONE]`, derived from `fc` and `sr`.
    pub a: i64,
    /// Filter state (the running output).
    pub y: i64,
    /// Sample rate in Hz, clamped into `[1, SR_MAX]`.
    pub sr: u32,
    /// Cutoff in Q32.32 Hz, nonnegative.
    pub fc: i64,
}

impl OnePoleLP {
    /// Well-formed: clamped rate, nonnegative cutoff, unit coefficient,
    /// guarded state.
    pub open spec fn wf(&self) -> bool {
        &&& 1 <= self.sr <= SR_MAX
        &&& 0 <= self.fc
        &&& 0 <= self.a <= ONE
        &&& iabs(self.y as int) <= SIG
    }

    /// The coefficient the cutoff and rate dictate.
    pub open spec fn coeff_s(fc: int, sr: int) -> int {
        (ONE as int) - one_pole_coeff_hz_s(fc, sr)
    }

    fn update_coeffs(&mut self)
        requires
            old(self).wf(),
        ensures
            final(self).wf(),
            *final(self) == (OnePoleLP {
                a: Self::coeff_s(old(self).fc as int, old(self).sr as int) as i64,
                ..*old(self)
            }),
    {
        let e = one_pole_coeff_hz(self.fc, self.sr);
        self.a = ONE - e;
    }

    /// A fresh low-pass at cutoff `cut_hz` (Q32.32 Hz) and rate `sr`.
    pub fn new(cut_hz: i64, sr: u32) -> (r: OnePoleLP)
        ensures
            r.wf(),
            r.sr == clamp_sr_s(sr as int),
            r.fc == if cut_hz < 0 { 0int } else { cut_hz as int },
            r.a == Self::coeff_s(r.fc as int, r.sr as int),
            r.y == 0,
    {
        let mut s = OnePoleLP {
            a: 0,
            y: 0,
            sr: clamp_sr(sr),
            fc: if cut_hz < 0 { 0 } else { cut_hz },
        };
        s.update_coeffs();
        proof {
            lemma_one_pole_coeff_hz_range(s.fc as int, s.sr as int);
        }
        s
    }

    /// Change the sample rate; the coefficient follows.
    pub fn set_sample_rate(&mut self, sr: u32)
        requires
            old(self).wf(),
        ensures
            final(self).wf(),
            *final(self) == (OnePoleLP {
                sr: clamp_sr_s(sr as int) as u32,
                a: Self::coeff_s(old(self).fc as int, clamp_sr_s(sr as int)) as i64,
                ..*old(self)
            }),
    {
        self.sr = clamp_sr(sr);
        self.update_coeffs();
    }

    /// Change the cutoff; the coefficient follows.
    pub fn set_cutoff_hz(&mut self, cut_hz: i64)
        requires
            old(self).wf(),
        ensures
            final(self).wf(),
            *final(self) == (OnePoleLP {
                fc: if cut_hz < 0 { 0i64 } else { cut_hz },
                a: Self::coeff_s(if cut_hz < 0 { 0int } else { cut_hz as int },
                    old(self).sr as int) as i64,
                ..*old(self)
            }),
    {
        self.fc = if cut_hz < 0 { 0 } else { cut_hz };
        self.update_coeffs();
    }

    /// One step: the state moves toward `x` by factor `a` and is returned.
    pub fn process(&mut self, x: i64) -> (r: i64)
        requires
            old(self).wf(),
            iabs(x as int) <= SIG,
        ensures
            final(self).wf(),
            final(self).y == old(self).y
                + qmul_s(old(self).a as int, (x - old(self).y) as int),
            r == final(self).y,
            iabs(r as int) <= SIG,
            final(self).a == old(self).a,
            final(self).sr == old(self).sr,
            final(self).fc == old(self).fc,
    {
        proof {
            lemma_mul_le(self.a as int, (x - self.y) as int, 0x100000000, 0x400000000000);
            lemma_qmul_unit(self.a as int, (x - self.y) as int);
        }
        self.y = self.y + qmul(self.a, x - self.y);
        kill_denormals(self.y)
    }

    /// The current filter state.
    pub fn value(&self) -> (r: i64)
        ensures
            r == self.y,
    {
        self.y
    }
}

/// One-pole high-pass in leaky-integrator form:
/// `y[n] = x[n] - x[n-1] + b·y[n-1]` with `b = exp(-2π·fc/sr)`.
#[derive(Clone, Copy, Debug)]
pub struct OnePoleHP {
    /// Leak coefficient in `[0, ONE]`, derived from `fc` and `sr`.
    pub b: i64,
    /// Previous input.
    pub x1: i64,
    /// Previous output.
    pub y1: i64,
    /// Sample rate in Hz, clamped into `[1, SR_MAX]`.
    pub sr: u32,
    /// Cutoff in Q32.32 Hz, nonnegative.
    pub fc: i64,
}

impl OnePoleHP {
    /// Well-formed: clamped rate, nonnegative cutoff, unit coefficient,
    /// guarded state.
    pub open spec fn wf(&self) -> bool {
        &&& 1 <= self.sr <= SR_MAX
        &&& 0 <= self.fc
        &&& 0 <= self.b <= ONE
        &&& iabs(self.x1 as int) <= SIG
        &&& iabs(self.y1 as int) <= SIG
    }

    fn update_coeffs(&mut self)
        requires
            old(self).wf(),
        ensures
            final(self).wf(),
            *final(self) == (OnePoleHP {
                b: one_pole_coeff_hz_s(old(self).fc as int, old(self).sr as int) as i64,
                ..*old(self)
            }),
    {
        self.b = one_pole_coeff_hz(self.fc, self.sr);
    }

    /// A fresh high-pass at cutoff `cut_hz` (Q32.32 Hz) and rate `sr`.
    pub fn new(cut_hz: i64, sr: u32) -> (r: OnePoleHP)
        ensures
            r.wf(),
            r.sr == clamp_sr_s(sr as int),
            r.fc == if cut_hz < 0 { 0int } else { cut_hz as int },
            r.b == one_pole_coeff_hz_s(r.fc as int, r.sr as int),
            r.x1 == 0,
            r.y1 == 0,
    {
        let mut s = OnePoleHP {
            b: 0,
            x1: 0,
            y1: 0,
            sr: clamp_sr(sr),
            fc: if cut_hz < 0 { 0 } else { cut_hz },
        };
        s.update_coeffs();
        proof {
            lemma_one_pole_coeff_hz_range(s.fc as int, s.sr as int);
        }
        s
    }

    /// Change the sample rate; the coefficient follows.
    pub fn set_sample_rate(&mut self, sr: u32)
        requires
            old(self).wf(),
        ensures
            final(self).wf(),
            *final(self) == (OnePoleHP {
                sr: clamp_sr_s(sr as int) as u32,
                b: one_pole_coeff_hz_s(old(self).fc as int, clamp_sr_s(sr as int)) as i64,
                ..*old(self)
            }),
    {
        self.sr = clamp_sr(sr);
        self.update_coeffs();
    }

    /// Change the cutoff; the coefficient follows.
    pub fn set_cutoff_hz(&mut self, cut_hz: i64)
        requires
            old(self).wf(),
        ensures
            final(self).wf(),
            *final(self) == (OnePoleHP {
                fc: if cut_hz < 0 { 0i64 } else { cut_hz },
                b: one_pole_coeff_hz_s(if cut_hz < 0 { 0int } else { cut_hz as int },
                    old(self).sr as int) as i64,
                ..*old(self)
            }),
    {
        self.fc = if cut_hz < 0 { 0 } else { cut_hz };
        self.update_coeffs();
    }

    /// One step of the difference equation; the output is clamped into the
    /// guard band and remembered.
    pub fn process(&mut self, x: i64) -> (r: i64)
        requires
            old(self).wf(),
            iabs(x as int) <= SIG,
        ensures
            final(self).wf(),
            final(self).x1 == x,
            final(self).y1 == clamp_s(
                x - old(self).x1 + qmul_s(old(self).b as int, old(self).y1 as int),
                -(SIG as int), SIG as int),
            r == final(self).y1,
            final(self).b == old(self).b,
            final(self).sr == old(self).sr,
            final(self).fc == old(self).fc,
    {
        proof {
            lemma_mul_le(self.b as int, self.y1 as int, 0x100000000, 0x200000000000);
            lemma_qmul_unit(self.b as int, self.y1 as int);
        }
        let y = clamp_q(x - self.x1 + qmul(self.b, self.y1), -SIG, SIG);
        self.x1 = x;
        self.y1 = y;
        kill_denormals(y)
    }

    /// The previous output.
    pub fn value(&self) -> (r: i64)
        ensures
            r == self.y1,
    {
        self.y1
    }
}

/// Convenience DC blocker: a high-pass preset to a low cutoff
/// (20 Hz recommended).
#[derive(Clone, Copy, Debug)]
pub struct DcBlock {
    /// The underlying high-pass.
    pub hp: OnePoleHP,
}

impl DcBlock {
    /// Well-formed when the underlying high-pass is.
    pub open spec fn wf(&self) -> bool {
        self.hp.wf()
    }

    /// A fresh blocker at cutoff `cut_hz` (Q32.32 Hz) and rate `sr`.
    pub fn new(cut_hz: i64, sr: u32) -> (r: DcBlock)
        ensures
            r.wf(),
            r.hp.sr == clamp_sr_s(sr as int),
            r.hp.fc == if cut_hz < 0 { 0int } else { cut_hz as int },
            r.hp.b == one_pole_coeff_hz_s(r.hp.fc as int, r.hp.sr as int),
            r.hp.x1 == 0,
            r.hp.y1 == 0,
    {
        DcBlock { hp: OnePoleHP::new(cut_hz, sr) }
    }

    /// Change the sample rate of the underlying high-pass.
    pub fn set_sample_rate(&mut self, sr: u32)
        requires
            old(self).wf(),
        ensures
            final(self).wf(),
            final(self).hp == (OnePoleHP {
                sr: clamp_sr_s(sr as int) as u32,
                b: one_pole_coeff_hz_s(old(self).hp.fc as int, clamp_sr_s(sr as int)) as i64,
                ..old(self).hp
            }),
    {
        self.hp.set_sample_rate(sr);
    }

    /// Change the cutoff of the underlying high-pass.
    pub fn set_cutoff_hz(&mut self, hz: i64)
        requires
            old(self).wf(),
        ensures
            final(self).wf(),
            final(self).hp == (OnePoleHP {
                fc: if hz < 0 { 0i64 } else { hz },
                b: one_pole_coeff_hz_s(if hz < 0 { 0int } else { hz as int },
                    old(self).hp.sr as int) as i64,
                ..old(self).hp
            }),
    {
        self.hp.set_cutoff_hz(hz);
    }

    /// One step of the underlying high-pass.
    pub fn process(&mut self, x: i64) -> (r: i64)
        requires
            old(self).wf(),
            iabs(x as int) <= SIG,
        ensures
            final(self).wf(),
            final(self).hp.x1 == x,
            final(self).hp.y1 == clamp_s(
                x - old(self).hp.x1 + qmul_s(old(self).hp.b as int, old(self).hp.y1 as int),
                -(SIG as int), SIG as int),
            r == final(self).hp.y1,
            final(self).hp.b == old(self).hp.b,
            final(self).hp.sr == old(self).hp.sr,
            final(self).hp.fc == old(self).hp.fc,
    {
        self.hp.process(x)
    }

    /// The previous output.
    pub fn value(&self) -> (r: i64)
        ensures
            r == self.hp.y1,
    {
        self.hp.value()
    }
}

/// SVF output tap selection.
#[derive(Clone, Copy, Debug)]
pub enum SvfMode {
    Lowpass,
    Highpass,
    Bandpass,
    Notch,
}

/// Topology-preserving-transform state-variable filter.
#[derive(Clone, Copy, Debug)]
pub struct SvfTpt {
    /// Sample rate in Hz, clamped into `[1, SR_MAX]`.
    pub sr: u32,
    /// Cutoff in Q32.32 Hz, nonnegative.
    pub cut: i64,
    /// Quality factor in `[Q_MIN, SIG]`.
    pub q: i64,
    /// Integrator gain `tan(π·fc/sr)`, held in `[0, SIG]`.
    pub g: i64,
    /// Damping `1/(2Q)`, held in `[0, SIG]`.
    pub r: i64,
    /// First integrator memory, in the guard band.
    pub ic1eq: i64,
    /// Second integrator memory, in the guard band.
    pub ic2eq: i64,
}

impl SvfTpt {
    /// Well-formed: clamped parameters, guarded derived values and state.
    pub open spec fn wf(&self) -> bool {
        &&& 1 <= self.sr <= SR_MAX
        &&& 0 <= self.cut
        &&& Q_MIN <= self.q <= SIG
        &&& 0 <= self.g <= SIG
        &&& 0 <= self.r <= SIG
        &&& iabs(self.ic1eq as int) <= SIG
        &&& iabs(self.ic2eq as int) <= SIG
    }

    /// The derived quantities the parameters dictate: the TPT gain held in
    /// the guard band, and the damping `1/(2Q)`.
    pub open spec fn derived_s(s: SvfTpt) -> SvfTpt {
        SvfTpt {
            g: clamp_s(tpt_g_s(s.cut as int, s.sr as int), 0, SIG as int) as i64,
            r: qdiv_s(ONE as int, 2 * s.q) as i64,
            ..s
        }
    }

    fn recalc(&mut self)
        requires
            old(self).wf(),
        ensures
            final(self).wf(),
            *final(self) == Self::derived_s(*old(self)),
    {
        let gv = tpt_g(self.cut, self.sr);
        self.g = clamp_q(gv, 0, SIG);
        proof {
            assert(iabs(ONE as int) * (ONE as int) <= 0x4000000000000000 * (2 * (self.q as int)))
                by (nonlinear_arith)
                requires self.q as int >= 429497, ONE as int == 4294967296,
            {}
        }
        let rv = qdiv(ONE, 2 * self.q);
        proof {
            lemma_mul_sign_abs(ONE as int, ONE as int);
            lemma_div_down_abs((ONE as int) * (ONE as int), 2 * (self.q as int));
            assert((ONE as int) * (ONE as int) == 0x10000000000000000) by (nonlinear_arith)
                requires ONE as int == 4294967296,
            {}
            crate::fixed::lemma_div_ordered_by_den(0x10000000000000000, 858994, 2 * (self.q as int));
            assert(0x10000000000000000int / 858994 <= SIG);
        }
        self.r = rv;
    }

    /// A fresh SVF at cutoff `cut_hz`, quality `q` and rate `sr`.
    pub fn new(cut_hz: i64, q: i64, sr: u32) -> (r: SvfTpt)
        ensures
            r.wf(),
            r == Self::derived_s(SvfTpt {
                sr: clamp_sr_s(sr as int) as u32,
                cut: if cut_hz < 0 { 0i64 } else { cut_hz },
                q: clamp_s(q as int, Q_MIN as int, SIG as int) as i64,
                g: 0, r: 0, ic1eq: 0, ic2eq: 0,
            }),
    {
        let mut s = SvfTpt {
            sr: clamp_sr(sr),
            cut: if cut_hz < 0 { 0 } else { cut_hz },
            q: clamp_q(q, Q_MIN, SIG),
            g: 0,
            r: 0,
            ic1eq: 0,
            ic2eq: 0,
        };
        s.recalc();
        s
    }

    /// Change the sample rate; the derived values follow.
    pub fn set_sample_rate(&mut self, sr: u32)
        requires
            old(self).wf(),
        ensures
            final(self).wf(),
            *final(self) == Self::derived_s(SvfTpt {
                sr: clamp_sr_s(sr as int) as u32, ..*old(self)
            }),
    {
        self.sr = clamp_sr(sr);
        self.recalc();
    }

    /// Change the cutoff; the derived values follow.
    pub fn set_cutoff_hz(&mut self, cut_hz: i64)
        requires
            old(self).wf(),
        ensures
            final(self).wf(),
            *final(self) == Self::derived_s(SvfTpt {
                cut: if cut_hz < 0 { 0i64 } else { cut_hz }, ..*old(self)
            }),
    {
        self.cut = if cut_hz < 0 { 0 } else { cut_hz };
        self.recalc();
    }

    /// Change the quality factor; the derived values follow.
    pub fn set_q(&mut self, q: i64)
        requires
            old(self).wf(),
        ensures
            final(self).wf(),
            *final(self) == Self::derived_s(SvfTpt {
                q: clamp_s(q as int, Q_MIN as int, SIG as int) as i64, ..*old(self)
            }),
    {
        self.q = clamp_q(q, Q_MIN, SIG);
        self.recalc();
    }

    /// The integrator update for one input sample: the new memories.
    pub open spec fn step_s(s: SvfTpt, x: int) -> SvfTpt {
        let v0 = clamp_s(x - qmul_s(s.r as int, s.ic1eq as int) - s.ic2eq, -(SIG as int), SIG as int);
        let v1 = clamp_s(qmul_s(s.g as int, v0) + s.ic1eq, -(SIG as int), SIG as int);
        let v2 = clamp_s(qmul_s(s.g as int, v1) + s.ic2eq, -(SIG as int), SIG as int);
        SvfTpt {
            ic1eq: clamp_s(qmul_s(s.g as int, v0) + v1, -(SIG as int), SIG as int) as i64,
            ic2eq: clamp_s(qmul_s(s.g as int, v1) + v2, -(SIG as int), SIG as int) as i64,
            ..s
        }
    }

    /// The four taps the same update yields: `(lp, bp, hp, notch)`.
    pub open spec fn taps_s(s: SvfTpt, x: int) -> (int, int, int, int) {
        let v0 = clamp_s(x - qmul_s(s.r as int, s.ic1eq as int) - s.ic2eq, -(SIG as int), SIG as int);
        let v1 = clamp_s(qmul_s(s.g as int, v0) + s.ic1eq, -(SIG as int), SIG as int);
        let v2 = clamp_s(qmul_s(s.g as int, v1) + s.ic2eq, -(SIG as int), SIG as int);
        let hp = clamp_s(v0 - qmul_s(s.r as int, v1) - v2, -(SIG as int), SIG as int);
        let notch = clamp_s(hp + v2, -(SIG as int), SIG as int);
        (v2, v1, hp, notch)
    }

    /// Process one sample and return all four taps `(lp, bp, hp, notch)`.
    pub fn process_all(&mut self, x: i64) -> (taps: (i64, i64, i64, i64))
        requires
            old(self).wf(),
            iabs(x as int) <= SIG,
        ensures
            final(self).wf(),
            *final(self) == Self::step_s(*old(self), x as int),
            (taps.0 as int, taps.1 as int, taps.2 as int, taps.3 as int)
                == Self::taps_s(*old(self), x as int),
            iabs(taps.0 as int) <= SIG,
            iabs(taps.1 as int) <= SIG,
            iabs(taps.2 as int) <= SIG,
            iabs(taps.3 as int) <= SIG,
    {
        proof {
            lemma_mul_le(self.r as int, self.ic1eq as int, 0x200000000000, 0x200000000000);
            lemma_qmul_bound(self.r as int, self.ic1eq as int, 0x200000000000, 0x200000000000);
        }
        let v0 = clamp_q(x - qmul(self.r, self.ic1eq) - self.ic2eq, -SIG, SIG);
        proof {
            lemma_mul_le(self.g as int, v0 as int, 0x200000000000, 0x200000000000);
            lemma_qmul_bound(self.g as int, v0 as int, 0x200000000000, 0x200000000000);
        }
        let gv0 = qmul(self.g, v0);
        let v1 = clamp_q(gv0 + self.ic1eq, -SIG, SIG);
        proof {
            lemma_mul_le(self.g as int, v1 as int, 0x200000000000, 0x200000000000);
            lemma_qmul_bound(self.g as int, v1 as int, 0x200000000000, 0x200000000000);
        }
        let gv1 = qmul(self.g, v1);
        let v2 = clamp_q(gv1 + self.ic2eq, -SIG, SIG);
        self.ic1eq = clamp_q(gv0 + v1, -SIG, SIG);
        self.ic2eq = clamp_q(gv1 + v2, -SIG, SIG);
        proof {
            lemma_mul_le(self.r as int, v1 as int, 0x200000000000, 0x200000000000);
            lemma_qmul_bound(self.r as int, v1 as int, 0x200000000000, 0x200000000000);
        }
        let hp = clamp_q(v0 - qmul(self.r, v1) - v2, -SIG, SIG);
        let notch = clamp_q(hp + v2, -SIG, SIG);
        (v2, v1, hp, notch)
    }

    /// Process one sample and return the tap `mode` selects.
    pub fn process(&mut self, x: i64, mode: SvfMode) -> (r: i64)
        requires
            old(self).wf(),
            iabs(x as int) <= SIG,
        ensures
            final(self).wf(),
            *final(self) == Self::step_s(*old(self), x as int),
            r as int == (match mode {
                SvfMode::Lowpass => Self::taps_s(*old(self), x as int).0,
                SvfMode::Highpass => Self::taps_s(*old(self), x as int).2,
                SvfMode::Bandpass => Self::taps_s(*old(self), x as int).1,
                SvfMode::Notch => Self::taps_s(*old(self), x as int).3,
            }),
            iabs(r as int) <= SIG,
    {
        let taps = self.process_all(x);
        match mode {
            SvfMode::Lowpass => taps.0,
            SvfMode::Highpass => taps.2,
            SvfMode::Bandpass => taps.1,
            SvfMode::Notch => taps.3,
        }
    }

    /// Process one sample and return the low-pass tap.
    pub fn process_lp(&mut self, x: i64) -> (r: i64)
        requires
            old(self).wf(),
            iabs(x as int) <= SIG,
        ensures
            final(self).wf(),
            *final(self) == Self::step_s(*old(self), x as int),
            r as int == Self::taps_s(*old(self), x as int).0,
            iabs(r as int) <= SIG,
    {
        self.process(x, SvfMode::Lowpass)
    }

    /// Process one sample and return the high-pass tap.
    pub fn process_hp(&mut self, x: i64) -> (r: i64)
        requires
            old(self).wf(),
            iabs(x as int) <= SIG,
        ensures
            final(self).wf(),
            *final(self) == Self::step_s(*old(self), x as int),
            r as int == Self::taps_s(*old(self), x as int).2,
            iabs(r as int) <= SIG,
    {
        self.process(x, SvfMode::Highpass)
    }

    /// Process one sample and return the band-pass tap.
    pub fn process_bp(&mut self, x: i64) -> (r: i64)
        requires
            old(self).wf(),
            iabs(x as int) <= SIG,
        ensures
            final(self).wf(),
            *final(self) == Self::step_s(*old(self), x as int),
            r as int == Self::taps_s(*old(self), x as int).1,
            iabs(r as int) <= SIG,
    {
        self.process(x, SvfMode::Bandpass)
    }

    /// Process one sample and return the notch tap.
    pub fn process_notch(&mut self, x: i64) -> (r: i64)
        requires
            old(self).wf(),
            iabs(x as int) <= SIG,
        ensures
            final(self).wf(),
            *final(self) == Self::step_s(*old(self), x as int),
            r as int == Self::taps_s(*old(self), x as int).3,
            iabs(r as int) <= SIG,
    {
        self.process(x, SvfMode::Notch)
    }
}

} // verus!
