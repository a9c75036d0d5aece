//! Envelope generators and parameter slewing.
//!
//! - [`AdsrLinear`]  : classic ADSR with linear segments
//! - [`AdsrExp`]     : ADSR with exponential (RC-like) segments
//! - [`ArExp`]       : percussive attack/release envelope
//! - [`SlewLimiter`] : one-pole smoother for arbitrary control signals
//!
//! Each envelope's `next` states the complete transition it takes as one
//! step function over the envelope's own state, so callers (and the tests)
//! know the successor state exactly.  Stage times of zero or less mean an
//! instantaneous jump, never a division by zero.

use vstd::prelude::*;
use vstd::arithmetic::div_mod::lemma_div_pos_is_pos;
use crate::fixed::{
    ONE, SIG, SR_MAX, iabs, qmul_s, clamp_s, clamp_sr_s, clamp_q, clamp_sr, qmul,
    lemma_mul_le, lemma_qmul_unit, lemma_qmul_comm,
};
use crate::dsp::{one_pole_coeff_ms_s, one_pole_coeff_ms};

verus! {

/// `0.9999` in Q32.32: the "arrived at full level" threshold of the
/// exponential envelopes.
pub const NEAR_ONE: i64 = 4294537800;

/// `1e-6` in Q32.32: the release snap-to-zero threshold of [`AdsrExp`].
pub const SNAP_EXP: i64 = 4295;

/// `1e-5` in Q32.32: the release snap-to-zero threshold of [`ArExp`].
pub const SNAP_AR: i64 = 42950;

/// The stage a linear ADSR envelope is in.
#[derive(Clone, Copy, Debug, PartialEq, Eq)]
pub enum AdsrStage {
    Idle,
    Attack,
    Decay,
    Sustain,
    Release,
}

/// A linear per-sample ramp increment: `amount / (t_ms·0.001·sr)` in
/// Q32.32, capped at `ONE` (a step of a whole unit per sample).
pub open spec fn ramp_inc_s(amount: int, t_ms: int, sr: int) -> int {
    let raw = amount * 1000 * (ONE as int) / (t_ms * sr);
    if raw > ONE { ONE as int } else { raw }
}

/// Compute a linear ramp increment.
fn ramp_inc(amount: i64, t_ms: i64, sr: u32) -> (r: i64)
    requires
        0 <= amount <= ONE,
        1 <= t_ms,
        1 <= sr,
    ensures
        r == ramp_inc_s(amount as int, t_ms as int, sr as int),
        0 <= r <= ONE,
{
    proof {
        lemma_mul_le(amount as int, 1000, 0x100000000, 1000);
        lemma_mul_le((amount as int) * 1000, ONE as int, 0x3e800000000, 0x100000000);
        lemma_mul_le(t_ms as int, sr as int, 0x8000000000000000, 0x100000000);
        assert((t_ms as int) * (sr as int) >= 1) by (nonlinear_arith)
            requires t_ms as int >= 1, sr as int >= 1,
        {}
        assert((amount as int) * 1000 >= 0) by (nonlinear_arith)
            requires amount as int >= 0,
        {}
        assert((amount as int) * 1000 * (ONE as int) >= 0) by (nonlinear_arith)
            requires (amount as int) * 1000 >= 0,
        {}
        lemma_div_pos_is_pos((amount as int) * 1000 * (ONE as int), (t_ms as int) * (sr as int));
    }
    let num: u128 = (amount as u128) * 1000u128 * (ONE as u128);
    let den: u128 = (t_ms as u128) * (sr as u128);
    let q: u128 = num / den;
    if q > ONE as u128 {
        ONE
    } else {
        q as i64
    }
}

/// Linear ADSR envelope.  Stage times are Q32.32 milliseconds; the sustain
/// level is clamped into `[0, 1]`.
#[derive(Clone, Copy, Debug)]
pub struct AdsrLinear {
    /// Attack time in Q32.32 ms.
    pub atk_ms: i64,
    /// Decay time in Q32.32 ms.
    pub dec_ms: i64,
    /// Sustain level in `[0, ONE]`.
    pub sus: i64,
    /// Release time in Q32.32 ms.
    pub rel_ms: i64,
    /// Sample rate in Hz, clamped into `[1, SR_MAX]`.
    pub sr: u32,
    /// Current envelope value in `[0, ONE]`.
    pub env: i64,
    /// Whether the note is held.
    pub gate: bool,
    /// Current stage.
    pub stage: AdsrStage,
    /// Cached attack increment per sample.
    pub a_inc: i64,
    /// Cached decay decrement per sample.
    pub d_dec: i64,
    /// Cached release decrement per sample.
    pub r_dec: i64,
}

impl AdsrLinear {
    /// Well-formed: clamped rate and sustain, unit-bounded value and
    /// cached increments.
    pub open spec fn wf(&self) -> bool {
        &&& 1 <= self.sr <= SR_MAX
        &&& 0 <= self.sus <= ONE
        &&& 0 <= self.env <= ONE
        &&& 0 <= self.a_inc <= ONE
        &&& 0 <= self.d_dec <= ONE
        &&& 0 <= self.r_dec <= ONE
    }

    /// The increments the stage parameters dictate: an instant step for a
    /// nonpositive time, else the linear ramp covering the stage's span.
    pub open spec fn recalc_s(s: AdsrLinear) -> AdsrLinear {
        AdsrLinear {
            a_inc: if s.atk_ms <= 0 { ONE } else {
                ramp_inc_s(ONE as int, s.atk_ms as int, s.sr as int) as i64
            },
            d_dec: if s.dec_ms <= 0 { ONE } else {
                ramp_inc_s((ONE - s.sus) as int, s.dec_ms as int, s.sr as int) as i64
            },
            r_dec: if s.rel_ms <= 0 { ONE } else {
                ramp_inc_s(s.sus as int, s.rel_ms as int, s.sr as int) as i64
            },
            ..s
        }
    }

    /// Recompute the cached per-sample increments.
    fn recalc_increments(&mut self)
        requires
            old(self).wf(),
        ensures
            final(self).wf(),
            *final(self) == Self::recalc_s(*old(self)),
    {
        self.a_inc = if self.atk_ms <= 0 { ONE } else { ramp_inc(ONE, self.atk_ms, self.sr) };
        self.d_dec = if self.dec_ms <= 0 { ONE } else {
            ramp_inc(ONE - self.sus, self.dec_ms, self.sr)
        };
        self.r_dec = if self.rel_ms <= 0 { ONE } else {
            ramp_inc(self.sus, self.rel_ms, self.sr)
        };
    }

    /// A fresh idle envelope with the given stage times (Q32.32 ms),
    /// sustain level and sample rate.
    pub fn new(atk_ms: i64, dec_ms: i64, sus: i64, rel_ms: i64, sr: u32) -> (r: AdsrLinear)
        ensures
            r.wf(),
            r == Self::recalc_s(AdsrLinear {
                atk_ms, dec_ms, sus: clamp_s(sus as int, 0, ONE as int) as i64, rel_ms,
                sr: clamp_sr_s(sr as int) as u32,
                env: 0, gate: false, stage: AdsrStage::Idle,
                a_inc: 0, d_dec: 0, r_dec: 0,
            }),
    {
        let mut s = AdsrLinear {
            atk_ms,
            dec_ms,
            sus: clamp_q(sus, 0, ONE),
            rel_ms,
            sr: clamp_sr(sr),
            env: 0,
            gate: false,
            stage: AdsrStage::Idle,
            a_inc: 0,
            d_dec: 0,
            r_dec: 0,
        };
        s.recalc_increments();
        s
    }

    /// Change the sample rate; the cached increments follow.
    pub fn set_sr(&mut self, sr: u32)
        requires
            old(self).wf(),
        ensures
            final(self).wf(),
            *final(self) == Self::recalc_s(AdsrLinear {
                sr: clamp_sr_s(sr as int) as u32, ..*old(self)
            }),
    {
        self.sr = clamp_sr(sr);
        self.recalc_increments();
    }

    /// Change the stage parameters live; negative times are clamped to
    /// zero (instant), the current value and stage are untouched.
    pub fn set_params(&mut self, atk_ms: i64, dec_ms: i64, sus: i64, rel_ms: i64)
        requires
            old(self).wf(),
        ensures
            final(self).wf(),
            *final(self) == Self::recalc_s(AdsrLinear {
                atk_ms: if atk_ms < 0 { 0 } else { atk_ms },
                dec_ms: if dec_ms < 0 { 0 } else { dec_ms },
                sus: clamp_s(sus as int, 0, ONE as int) as i64,
                rel_ms: if rel_ms < 0 { 0 } else { rel_ms },
                ..*old(self)
            }),
    {
        self.atk_ms = if atk_ms < 0 { 0 } else { atk_ms };
        self.dec_ms = if dec_ms < 0 { 0 } else { dec_ms };
        self.sus = clamp_q(sus, 0, ONE);
        self.rel_ms = if rel_ms < 0 { 0 } else { rel_ms };
        self.recalc_increments();
    }

    /// Note on: the envelope enters `Attack` from any state.
    pub fn gate_on(&mut self)
        ensures
            *final(self) == (AdsrLinear { gate: true, stage: AdsrStage::Attack, ..*old(self) }),
    {
        self.gate = true;
        self.stage = AdsrStage::Attack;
    }

    /// Note off: the envelope enters `Release` from any state.
    pub fn gate_off(&mut self)
        ensures
            *final(self) == (AdsrLinear { gate: false, stage: AdsrStage::Release, ..*old(self) }),
    {
        self.gate = false;
        self.stage = AdsrStage::Release;
    }

    /// One transition of the envelope's state machine.
    pub open spec fn step_s(s: AdsrLinear) -> AdsrLinear {
        match s.stage {
            AdsrStage::Idle => AdsrLinear { env: 0, ..s },
            AdsrStage::Attack => {
                let e = s.env + s.a_inc;
                if e >= ONE {
                    AdsrLinear { env: ONE, stage: AdsrStage::Decay, ..s }
                } else {
                    AdsrLinear { env: e as i64, ..s }
                }
            },
            AdsrStage::Decay => {
                if !s.gate {
                    AdsrLinear { stage: AdsrStage::Release, ..s }
                } else if s.env > s.sus {
                    let e = s.env - s.d_dec;
                    if e <= s.sus {
                        AdsrLinear { env: s.sus, stage: AdsrStage::Sustain, ..s }
                    } else {
                        AdsrLinear { env: e as i64, ..s }
                    }
                } else {
                    AdsrLinear { env: s.sus, stage: AdsrStage::Sustain, ..s }
                }
            },
            AdsrStage::Sustain => {
                if !s.gate {
                    AdsrLinear { stage: AdsrStage::Release, ..s }
                } else {
                    AdsrLinear { env: s.sus, ..s }
                }
            },
            AdsrStage::Release => {
                if s.rel_ms <= 0 {
                    AdsrLinear { env: 0, stage: AdsrStage::Idle, ..s }
                } else if s.env > 0 {
                    let e = s.env - s.r_dec;
                    if e <= 0 {
                        AdsrLinear { env: 0, stage: AdsrStage::Idle, ..s }
                    } else {
                        AdsrLinear { env: e as i64, ..s }
                    }
                } else {
                    AdsrLinear { env: 0, stage: AdsrStage::Idle, ..s }
                }
            },
        }
    }

    /// Advance by one sample and return the new envelope value.
    pub fn next(&mut self) -> (r: i64)
        requires
            old(self).wf(),
        ensures
            final(self).wf(),
            *final(self) == Self::step_s(*old(self)),
            r == final(self).env,
            0 <= r <= ONE,
    {
        match self.stage {
            AdsrStage::Idle => {
                self.env = 0;
            },
            AdsrStage::Attack => {
                let e = self.env + self.a_inc;
                if e >= ONE {
                    self.env = ONE;
                    self.stage = AdsrStage::Decay;
                } else {
                    self.env = e;
                }
            },
            AdsrStage::Decay => {
                if !self.gate {
                    self.stage = AdsrStage::Release;
                } else if self.env > self.sus {
                    let e = self.env - self.d_dec;
                    if e <= self.sus {
                        self.env = self.sus;
                        self.stage = AdsrStage::Sustain;
                    } else {
                        self.env = e;
                    }
                } else {
                    self.env = self.sus;
                    self.stage = AdsrStage::Sustain;
                }
            },
            AdsrStage::Sustain => {
                if !self.gate {
                    self.stage = AdsrStage::Release;
                } else {
                    self.env = self.sus;
                }
            },
            AdsrStage::Release => {
                if self.rel_ms <= 0 {
                    self.env = 0;
                    self.stage = AdsrStage::Idle;
                } else if self.env > 0 {
                    let e = self.env - self.r_dec;
                    if e <= 0 {
                        self.env = 0;
                        self.stage = AdsrStage::Idle;
                    } else {
                        self.env = e;
                    }
                } else {
                    self.env = 0;
                    self.stage = AdsrStage::Idle;
                }
            },
        }
        self.env
    }

    /// The current envelope value.
    pub fn value(&self) -> (r: i64)
        ensures
            r == self.env,
    {
        self.env
    }
}

/// Exponential (RC-like) ADSR envelope: a continuous value with a
/// rising/falling flag instead of an explicit stage.
#[derive(Clone, Copy, Debug)]
pub struct AdsrExp {
    /// Attack time constant in Q32.32 ms.
    pub atk_ms: i64,
    /// Decay time constant in Q32.32 ms.
    pub dec_ms: i64,
    /// Sustain level in `[0, ONE]`.
    pub sus: i64,
    /// Release time constant in Q32.32 ms.
    pub rel_ms: i64,
    /// Sample rate in Hz, clamped into `[1, SR_MAX]`.
    pub sr: u32,
    /// Current envelope value in `[0, ONE]`.
    pub env: i64,
    /// Whether the note is held.
    pub gate: bool,
    /// True while the held value still eases toward full level.
    pub rising: bool,
    /// Cached attack coefficient.
    pub a_a: i64,
    /// Cached decay coefficient.
    pub a_d: i64,
    /// Cached release coefficient.
    pub a_r: i64,
}

impl AdsrExp {
    /// Well-formed: clamped rate and sustain, unit-bounded value and
    /// coefficients.
    pub open spec fn wf(&self) -> bool {
        &&& 1 <= self.sr <= SR_MAX
        &&& 0 <= self.sus <= ONE
        &&& 0 <= self.env <= ONE
        &&& 0 <= self.a_a <= ONE
        &&& 0 <= self.a_d <= ONE
        &&& 0 <= self.a_r <= ONE
    }

    /// The per-stage coefficients the parameters dictate.
    pub open spec fn recalc_s(s: AdsrExp) -> AdsrExp {
        AdsrExp {
            a_a: one_pole_coeff_ms_s(s.atk_ms as int, s.sr as int) as i64,
            a_d: one_pole_coeff_ms_s(s.dec_ms as int, s.sr as int) as i64,
            a_r: one_pole_coeff_ms_s(s.rel_ms as int, s.sr as int) as i64,
            ..s
        }
    }

    fn recalc_coeffs(&mut self)
        requires
            old(self).wf(),
        ensures
            final(self).wf(),
            *final(self) == Self::recalc_s(*old(self)),
    {
        self.a_a = one_pole_coeff_ms(self.atk_ms, self.sr);
        self.a_d = one_pole_coeff_ms(self.dec_ms, self.sr);
        self.a_r = one_pole_coeff_ms(self.rel_ms, self.sr);
    }

    /// A fresh idle envelope.
    pub fn new(atk_ms: i64, dec_ms: i64, sus: i64, rel_ms: i64, sr: u32) -> (r: AdsrExp)
        ensures
            r.wf(),
            r == Self::recalc_s(AdsrExp {
                atk_ms, dec_ms, sus: clamp_s(sus as int, 0, ONE as int) as i64, rel_ms,
                sr: clamp_sr_s(sr as int) as u32,
                env: 0, gate: false, rising: false,
                a_a: 0, a_d: 0, a_r: 0,
            }),
    {
        let mut s = AdsrExp {
            atk_ms,
            dec_ms,
            sus: clamp_q(sus, 0, ONE),
            rel_ms,
            sr: clamp_sr(sr),
            env: 0,
            gate: false,
            rising: false,
            a_a: 0,
            a_d: 0,
            a_r: 0,
        };
        s.recalc_coeffs();
        s
    }

    /// Change the sample rate; the coefficients follow.
    pub fn set_sr(&mut self, sr: u32)
        requires
            old(self).wf(),
        ensures
            final(self).wf(),
            *final(self) == Self::recalc_s(AdsrExp {
                sr: clamp_sr_s(sr as int) as u32, ..*old(self)
            }),
    {
        self.sr = clamp_sr(sr);
        self.recalc_coeffs();
    }

    /// Change the stage parameters live; negative times are clamped to
    /// zero, the current value keeps easing from where it is.
    pub fn set_params(&mut self, atk_ms: i64, dec_ms: i64, sus: i64, rel_ms: i64)
        requires
            old(self).wf(),
        ensures
            final(self).wf(),
            *final(self) == Self::recalc_s(AdsrExp {
                atk_ms: if atk_ms < 0 { 0 } else { atk_ms },
                dec_ms: if dec_ms < 0 { 0 } else { dec_ms },
                sus: clamp_s(sus as int, 0, ONE as int) as i64,
                rel_ms: if rel_ms < 0 { 0 } else { rel_ms },
                ..*old(self)
            }),
    {
        self.atk_ms = if atk_ms < 0 { 0 } else { atk_ms };
        self.dec_ms = if dec_ms < 0 { 0 } else { dec_ms };
        self.sus = clamp_q(sus, 0, ONE);
        self.rel_ms = if rel_ms < 0 { 0 } else { rel_ms };
        self.recalc_coeffs();
    }

    /// Note on: hold and start rising.
    pub fn gate_on(&mut self)
        ensures
            *final(self) == (AdsrExp { gate: true, rising: true, ..*old(self) }),
    {
        self.gate = true;
        self.rising = true;
    }

    /// Note off.
    pub fn gate_off(&mut self)
        ensures
            *final(self) == (AdsrExp { gate: false, ..*old(self) }),
    {
        self.gate = false;
    }

    /// One step: while held and rising, ease toward full level until
    /// within `1 - NEAR_ONE` of it; then ease toward the sustain level and
    /// hold; released, ease toward zero and snap to exactly zero inside
    /// the final `SNAP_EXP` band.
    pub open spec fn step_s(s: AdsrExp) -> AdsrExp {
        if s.gate {
            if s.rising && s.env < NEAR_ONE {
                let e = (s.env + qmul_s((ONE - s.env) as int, (ONE - s.a_a) as int)) as i64;
                AdsrExp { env: e, rising: e < NEAR_ONE, ..s }
            } else if s.env > s.sus {
                let e = (s.env + qmul_s((s.sus - s.env) as int, (ONE - s.a_d) as int)) as i64;
                AdsrExp { env: e, rising: false, ..s }
            } else {
                AdsrExp { env: s.sus, rising: false, ..s }
            }
        } else {
            let e = (s.env + qmul_s(-(s.env as int), (ONE - s.a_r) as int)) as i64;
            AdsrExp { env: if -SNAP_EXP < e < SNAP_EXP { 0 } else { e }, ..s }
        }
    }

    /// Advance by one sample and return the new envelope value.
    pub fn next(&mut self) -> (r: i64)
        requires
            old(self).wf(),
        ensures
            final(self).wf(),
            *final(self) == Self::step_s(*old(self)),
            r == final(self).env,
            0 <= r <= ONE,
    {
        if self.gate {
            if self.rising && self.env < NEAR_ONE {
                proof {
                    lemma_mul_le((ONE - self.env) as int, (ONE - self.a_a) as int,
                        0x100000000, 0x100000000);
                    lemma_qmul_comm((ONE - self.env) as int, (ONE - self.a_a) as int);
                    lemma_qmul_unit((ONE - self.a_a) as int, (ONE - self.env) as int);
                }
                let e = self.env + qmul(ONE - self.env, ONE - self.a_a);
                self.env = e;
                self.rising = e < NEAR_ONE;
            } else if self.env > self.sus {
                proof {
                    lemma_mul_le((self.sus - self.env) as int, (ONE - self.a_d) as int,
                        0x100000000, 0x100000000);
                    lemma_qmul_comm((self.sus - self.env) as int, (ONE - self.a_d) as int);
                    lemma_qmul_unit((ONE - self.a_d) as int, (self.sus - self.env) as int);
                }
                let e = self.env + qmul(self.sus - self.env, ONE - self.a_d);
                self.env = e;
                self.rising = false;
            } else {
                self.env = self.sus;
                self.rising = false;
            }
        } else {
            proof {
                lemma_mul_le(-(self.env as int), (ONE - self.a_r) as int,
                    0x100000000, 0x100000000);
                lemma_qmul_comm(-(self.env as int), (ONE - self.a_r) as int);
                lemma_qmul_unit((ONE - self.a_r) as int, -(self.env as int));
            }
            let e = self.env + qmul(-self.env, ONE - self.a_r);
            self.env = if -SNAP_EXP < e && e < SNAP_EXP { 0 } else { e };
        }
        self.env
    }

    /// The current envelope value.
    pub fn value(&self) -> (r: i64)
        ensures
            r == self.env,
    {
        self.env
    }
}

/// Exponential attack/release envelope for percussive shapes.
#[derive(Clone, Copy, Debug)]
pub struct ArExp {
    /// Attack time constant in Q32.32 ms.
    pub atk_ms: i64,
    /// Release time constant in Q32.32 ms.
    pub rel_ms: i64,
    /// Sample rate in Hz, clamped into `[1, SR_MAX]`.
    pub sr: u32,
    /// Current envelope value in `[0, ONE]`.
    pub env: i64,
    /// True between a trigger and reaching full level.
    pub rising: bool,
    /// Cached attack coefficient.
    pub a_a: i64,
    /// Cached release coefficient.
    pub a_r: i64,
}

impl ArExp {
    /// Well-formed: clamped rate, unit-bounded value and coefficients.
    pub open spec fn wf(&self) -> bool {
        &&& 1 <= self.sr <= SR_MAX
        &&& 0 <= self.env <= ONE
        &&& 0 <= self.a_a <= ONE
        &&& 0 <= self.a_r <= ONE
    }

    /// The coefficients the parameters dictate.
    pub open spec fn recalc_s(s: ArExp) -> ArExp {
        ArExp {
            a_a: one_pole_coeff_ms_s(s.atk_ms as int, s.sr as int) as i64,
            a_r: one_pole_coeff_ms_s(s.rel_ms as int, s.sr as int) as i64,
            ..s
        }
    }

    fn recalc(&mut self)
        requires
            old(self).wf(),
        ensures
            final(self).wf(),
            *final(self) == Self::recalc_s(*old(self)),
    {
        self.a_a = one_pole_coeff_ms(self.atk_ms, self.sr);
        self.a_r = one_pole_coeff_ms(self.rel_ms, self.sr);
    }

    /// A fresh silent envelope.
    pub fn new(atk_ms: i64, rel_ms: i64, sr: u32) -> (r: ArExp)
        ensures
            r.wf(),
            r == Self::recalc_s(ArExp {
                atk_ms, rel_ms, sr: clamp_sr_s(sr as int) as u32,
                env: 0, rising: false, a_a: 0, a_r: 0,
            }),
    {
        let mut s = ArExp {
            atk_ms,
            rel_ms,
            sr: clamp_sr(sr),
            env: 0,
            rising: false,
            a_a: 0,
            a_r: 0,
        };
        s.recalc();
        s
    }

    /// Change the sample rate; the coefficients follow.
    pub fn set_sr(&mut self, sr: u32)
        requires
            old(self).wf(),
        ensures
            final(self).wf(),
            *final(self) == Self::recalc_s(ArExp { sr: clamp_sr_s(sr as int) as u32, ..*old(self) }),
    {
        self.sr = clamp_sr(sr);
        self.recalc();
    }

    /// Change the time constants live; negative times are clamped to zero.
    pub fn set_params(&mut self, atk_ms: i64, rel_ms: i64)
        requires
            old(self).wf(),
        ensures
            final(self).wf(),
            *final(self) == Self::recalc_s(ArExp {
                atk_ms: if atk_ms < 0 { 0 } else { atk_ms },
                rel_ms: if rel_ms < 0 { 0 } else { rel_ms },
                ..*old(self)
            }),
    {
        self.atk_ms = if atk_ms < 0 { 0 } else { atk_ms };
        self.rel_ms = if rel_ms < 0 { 0 } else { rel_ms };
        self.recalc();
    }

    /// Restart from zero and rise.
    pub fn trigger(&mut self)
        ensures
            *final(self) == (ArExp { env: 0, rising: true, ..*old(self) }),
    {
        self.env = 0;
        self.rising = true;
    }

    /// One step: rising, ease toward full level and fall once within
    /// `1 - NEAR_ONE` of it; falling, ease toward zero and snap to exactly
    /// zero at or below `SNAP_AR`.
    pub open spec fn step_s(s: ArExp) -> ArExp {
        if s.rising {
            let e = (s.env + qmul_s((ONE - s.env) as int, (ONE - s.a_a) as int)) as i64;
            ArExp { env: e, rising: e < NEAR_ONE, ..s }
        } else {
            let e = (s.env + qmul_s(-(s.env as int), (ONE - s.a_r) as int)) as i64;
            ArExp { env: if e <= SNAP_AR { 0 } else { e }, ..s }
        }
    }

    /// Advance by one sample and return the new envelope value.
    pub fn next(&mut self) -> (r: i64)
        requires
            old(self).wf(),
        ensures
            final(self).wf(),
            *final(self) == Self::step_s(*old(self)),
            r == final(self).env,
            0 <= r <= ONE,
    {
        if self.rising {
            proof {
                lemma_mul_le((ONE - self.env) as int, (ONE - self.a_a) as int,
                    0x100000000, 0x100000000);
                lemma_qmul_comm((ONE - self.env) as int, (ONE - self.a_a) as int);
                lemma_qmul_unit((ONE - self.a_a) as int, (ONE - self.env) as int);
            }
            let e = self.env + qmul(ONE - self.env, ONE - self.a_a);
            self.env = e;
            self.rising = e < NEAR_ONE;
        } else {
            proof {
                lemma_mul_le(-(self.env as int), (ONE - self.a_r) as int,
                    0x100000000, 0x100000000);
                lemma_qmul_comm(-(self.env as int), (ONE - self.a_r) as int);
                lemma_qmul_unit((ONE - self.a_r) as int, -(self.env as int));
            }
            let e = self.env + qmul(-self.env, ONE - self.a_r);
            self.env = if e <= SNAP_AR { 0 } else { e };
        }
        self.env
    }

    /// The current envelope value.
    pub fn value(&self) -> (r: i64)
        ensures
            r == self.env,
    {
        self.env
    }
}

/// One-pole slew limiter: `y += (x - y)·(1 - alpha)`.
#[derive(Clone, Copy, Debug)]
pub struct SlewLimiter {
    /// Smoothing coefficient in `[0, ONE]`; closer to one is slower.
    pub alpha: i64,
    /// Current output value, inside the signal guard band.
    pub y: i64,
}

impl SlewLimiter {
    /// Well-formed: unit coefficient, guarded value.
    pub open spec fn wf(&self) -> bool {
        &&& 0 <= self.alpha <= ONE
        &&& iabs(self.y as int) <= SIG
    }

    /// A fresh limiter with time constant `t_ms` (Q32.32 ms) at rate `sr`.
    pub fn new(t_ms: i64, sr: u32) -> (r: SlewLimiter)
        ensures
            r.wf(),
            r.alpha == one_pole_coeff_ms_s(t_ms as int, clamp_sr_s(sr as int)),
            r.y == 0,
    {
        SlewLimiter { alpha: one_pole_coeff_ms(t_ms, clamp_sr(sr)), y: 0 }
    }

    /// Re-time the limiter without touching its value.
    pub fn set_time_ms(&mut self, t_ms: i64, sr: u32)
        requires
            old(self).wf(),
        ensures
            final(self).wf(),
            final(self).alpha == one_pole_coeff_ms_s(t_ms as int, clamp_sr_s(sr as int)),
            final(self).y == old(self).y,
    {
        self.alpha = one_pole_coeff_ms(t_ms, clamp_sr(sr));
    }

    /// Hard-set the current value (to avoid startup clicks).
    pub fn reset(&mut self, y0: i64)
        requires
            iabs(y0 as int) <= SIG,
        ensures
            final(self).alpha == old(self).alpha,
            final(self).y == y0,
    {
        self.y = y0;
    }

    /// One smoothing step toward `x`; the new value lies between the old
    /// value and the target.
    pub fn process(&mut self, x: i64) -> (r: i64)
        requires
            old(self).wf(),
            iabs(x as int) <= SIG,
        ensures
            final(self).wf(),
            final(self).alpha == old(self).alpha,
            final(self).y == old(self).y
                + qmul_s((x - old(self).y) as int, (ONE - old(self).alpha) as int),
            r == final(self).y,
    {
        proof {
            lemma_mul_le((x - self.y) as int, (ONE - self.alpha) as int,
                0x400000000000, 0x100000000);
            lemma_qmul_comm((x - self.y) as int, (ONE - self.alpha) as int);
            lemma_qmul_unit((ONE - self.alpha) as int, (x - self.y) as int);
        }
        self.y = self.y + qmul(x - self.y, ONE - self.alpha);
        self.y
    }

    /// The current value.
    pub fn value(&self) -> (r: i64)
        ensures
            r == self.y,
    {
        self.y
    }
}

} // verus!
