//! Lightweight mono reverb over fixed-capacity delay lines: two
//! pre-diffusion all-passes, four parallel feedback combs with internal
//! damping low-passes, two post-diffusion all-passes.
//!
//! Each stateful piece has a ghost model (`..Model` structs over `Seq`)
//! and a step function on that model; `process` contracts say exactly
//! which model the next state is.  Delay lines never grow: capacity is
//! fixed at construction, reads precede writes, and lengths are clamped
//! to capacity when re-derived for a new sample rate.

use vstd::prelude::*;
use crate::fixed::{
    ONE, SIG, SR_MAX, iabs, qmul_s, clamp_s, clamp_sr_s, clamp_q, clamp_sr, qmul,
    lemma_mul_le, lemma_qmul_unit, lemma_qmul_unit_abs, lemma_qmul_comm,
};
use crate::qmath::QUARTER;
use crate::filters::OnePoleLP;
use crate::dsp::kill_denormals;

verus! {

/// Capacity of the pre-diffusion all-pass lines (about 43 ms at 48 kHz).
pub const MAX_PRE_AP: usize = 2048;

/// Capacity of the comb tank lines (about 0.7 s at 48 kHz).
pub const MAX_TANK: usize = 34000;

/// Capacity of the post-diffusion all-pass lines (about 85 ms at 48 kHz).
pub const MAX_POST_AP: usize = 4096;

/// All-pass coefficient bound: `0.999` in Q32.32.
pub const G_AP_MAX: i64 = 4290672328;

/// Comb feedback bound: `0.99` in Q32.32.
pub const FB_MAX: i64 = 4252017623;

/// The ghost model of a delay line: its contents, cursor and logical
/// length.
#[verifier::ext_equal]
pub struct DelayModel {
    pub buf: Seq<i64>,
    pub i: int,
    pub len: int,
}

/// Fixed-capacity ring buffer with a logical length and a write cursor.
/// Reads always happen before the write that advances the cursor.
#[derive(Clone, Debug)]
pub struct DelayLine {
    /// Backing storage; its length is the fixed capacity.
    pub buf: Vec<i64>,
    /// Read/write cursor, below the logical length.
    pub i: usize,
    /// Logical length, in `[1, capacity]`.
    pub len: usize,
}

impl DelayLine {
    /// The line's ghost model.
    pub open spec fn model(&self) -> DelayModel {
        DelayModel { buf: self.buf@, i: self.i as int, len: self.len as int }
    }

    /// Well-formed: the cursor sits inside the logical length, which sits
    /// inside the capacity, and every stored sample is guarded.
    pub open spec fn wf(&self) -> bool {
        &&& 1 <= self.len <= self.buf@.len()
        &&& self.i < self.len
        &&& forall|k: int| 0 <= k < self.buf@.len() ==> iabs(#[trigger] self.buf@[k] as int) <= SIG
    }

    /// A zeroed line of capacity `cap` and logical length one.
    pub fn new(cap: usize) -> (r: DelayLine)
        requires
            1 <= cap <= 100000,
        ensures
            r.wf(),
            r.buf@.len() == cap,
            forall|k: int| 0 <= k < cap ==> r.buf@[k] == 0,
            r.i == 0,
            r.len == 1,
    {
        let mut v: Vec<i64> = Vec::new();
        let mut k: usize = 0;
        while k < cap
            invariant
                0 <= k <= cap,
                v@.len() == k,
                forall|j: int| 0 <= j < k ==> v@[j] == 0,
            decreases cap - k,
        {
            v.push(0);
            k = k + 1;
        }
        DelayLine { buf: v, i: 0, len: 1 }
    }

    /// The model after the length is re-set: the new length is clamped
    /// into `[1, capacity]`, and a cursor left beyond it returns to zero.
    pub open spec fn set_len_s(m: DelayModel, l: int) -> DelayModel {
        let nl = clamp_s(l, 1, m.buf.len() as int);
        DelayModel { len: nl, i: if m.i >= nl { 0 } else { m.i }, ..m }
    }

    /// Change the logical length, clamped to the capacity.
    pub fn set_len(&mut self, l: usize)
        requires
            old(self).wf(),
        ensures
            final(self).wf(),
            final(self).model() == Self::set_len_s(old(self).model(), l as int),
    {
        let cap = self.buf.len();
        self.len = if l < 1 {
            1
        } else if l > cap {
            cap
        } else {
            l
        };
        if self.i >= self.len {
            self.i = 0;
        }
    }

    /// Read the sample under the cursor.
    pub fn read(&self) -> (r: i64)
        requires
            self.wf(),
        ensures
            r == self.buf@[self.i as int],
            iabs(r as int) <= SIG,
    {
        self.buf[self.i]
    }

    /// The cursor after one advance.
    pub open spec fn next_i_s(m: DelayModel) -> int {
        if m.i + 1 >= m.len { 0 } else { m.i + 1 }
    }

    /// Write `x` at the cursor and advance it, wrapping at the logical
    /// length.
    pub fn write_advance(&mut self, x: i64)
        requires
            old(self).wf(),
            iabs(x as int) <= SIG,
        ensures
            final(self).wf(),
            final(self).model() == (DelayModel {
                buf: old(self).model().buf.update(old(self).i as int, x),
                i: Self::next_i_s(old(self).model()),
                len: old(self).len as int,
            }),
    {
        let idx = self.i;
        self.buf.set(idx, x);
        self.i = self.i + 1;
        if self.i >= self.len {
            self.i = 0;
        }
    }
}

/// The ghost model of an all-pass diffuser.
#[verifier::ext_equal]
pub struct ApModel {
    pub d: DelayModel,
    pub g: i64,
}

/// Canonical feedforward/feedback all-pass over a single delay line:
/// `y = z - g·x`, with `x + g·y` written back.
#[derive(Clone, Debug)]
pub struct Allpass {
    /// The delay line.
    pub d: DelayLine,
    /// Diffusion coefficient in `[-G_AP_MAX, G_AP_MAX]`.
    pub g: i64,
}

impl Allpass {
    /// The diffuser's ghost model.
    pub open spec fn model(&self) -> ApModel {
        ApModel { d: self.d.model(), g: self.g }
    }

    /// Well-formed: sound delay line, clamped coefficient.
    pub open spec fn wf(&self) -> bool {
        &&& self.d.wf()
        &&& -G_AP_MAX <= self.g <= G_AP_MAX
    }

    /// A zeroed all-pass of capacity `cap` with coefficient `g`.
    pub fn new(cap: usize, g: i64) -> (r: Allpass)
        requires
            1 <= cap <= 100000,
        ensures
            r.wf(),
            r.d.buf@.len() == cap,
            forall|k: int| 0 <= k < cap ==> r.d.buf@[k] == 0,
            r.d.i == 0,
            r.d.len == 1,
            r.g == clamp_s(g as int, -(G_AP_MAX as int), G_AP_MAX as int),
    {
        Allpass { d: DelayLine::new(cap), g: clamp_q(g, -G_AP_MAX, G_AP_MAX) }
    }

    /// Change the delay length.
    pub fn set_len(&mut self, l: usize)
        requires
            old(self).wf(),
        ensures
            final(self).wf(),
            final(self).model() == (ApModel {
                d: DelayLine::set_len_s(old(self).d.model(), l as int),
                g: old(self).g,
            }),
    {
        self.d.set_len(l);
    }

    /// Change the coefficient, clamped into `[-0.999, 0.999]`.
    pub fn set_g(&mut self, g: i64)
        requires
            old(self).wf(),
        ensures
            final(self).wf(),
            final(self).model() == (ApModel {
                d: old(self).d.model(),
                g: clamp_s(g as int, -(G_AP_MAX as int), G_AP_MAX as int) as i64,
            }),
    {
        self.g = clamp_q(g, -G_AP_MAX, G_AP_MAX);
    }

    /// One all-pass step on the model: the output and the written
    /// feedback value, both guarded.
    pub open spec fn step_s(m: ApModel, x: int) -> (ApModel, int) {
        let z = m.d.buf[m.d.i];
        let y = clamp_s(z - qmul_s(m.g as int, x), -(SIG as int), SIG as int);
        let w = clamp_s(x + qmul_s(m.g as int, y), -(SIG as int), SIG as int);
        (ApModel {
            d: DelayModel {
                buf: m.d.buf.update(m.d.i, w as i64),
                i: DelayLine::next_i_s(m.d),
                len: m.d.len,
            },
            g: m.g,
        }, y)
    }

    /// Process one sample.
    pub fn process(&mut self, x: i64) -> (r: i64)
        requires
            old(self).wf(),
            iabs(x as int) <= SIG,
        ensures
            final(self).wf(),
            (final(self).model(), r as int) == Self::step_s(old(self).model(), x as int),
            iabs(r as int) <= SIG,
    {
        let z = self.d.read();
        proof {
            lemma_mul_le(self.g as int, x as int, 0x100000000, 0x200000000000);
            lemma_qmul_unit_abs(self.g as int, x as int);
        }
        let y = clamp_q(z - qmul(self.g, x), -SIG, SIG);
        proof {
            lemma_mul_le(self.g as int, y as int, 0x100000000, 0x200000000000);
            lemma_qmul_unit_abs(self.g as int, y as int);
        }
        let w = clamp_q(x + qmul(self.g, y), -SIG, SIG);
        self.d.write_advance(w);
        kill_denormals(y)
    }
}

/// The ghost model of a damped feedback comb.
#[verifier::ext_equal]
pub struct CombModel {
    pub d: DelayModel,
    pub fb: i64,
    pub lp: OnePoleLP,
}

/// Feedback comb with a one-pole low-pass inside the feedback path: the
/// raw delayed sample is the tap, its damped version feeds back.
#[derive(Clone, Debug)]
pub struct CombLp {
    /// The delay line.
    pub d: DelayLine,
    /// Feedback amount in `[0, FB_MAX]`.
    pub fb: i64,
    /// Damping low-pass in the feedback path.
    pub lp: OnePoleLP,
}

impl CombLp {
    /// The comb's ghost model.
    pub open spec fn model(&self) -> CombModel {
        CombModel { d: self.d.model(), fb: self.fb, lp: self.lp }
    }

    /// Well-formed: sound delay line and low-pass, clamped feedback.
    pub open spec fn wf(&self) -> bool {
        &&& self.d.wf()
        &&& 0 <= self.fb <= FB_MAX
        &&& self.lp.wf()
    }

    /// A zeroed comb of capacity `cap` at rate `sr`, with feedback `0.7`
    /// and an 8 kHz damping cutoff until the controls are pushed in.
    pub fn new(cap: usize, sr: u32) -> (r: CombLp)
        requires
            1 <= cap <= 100000,
        ensures
            r.wf(),
            r.d.buf@.len() == cap,
            forall|k: int| 0 <= k < cap ==> r.d.buf@[k] == 0,
            r.d.i == 0,
            r.d.len == 1,
            r.fb == 3006477107,
            r.lp.fc == 34359738368000,
            r.lp.sr == clamp_sr_s(sr as int),
            r.lp.y == 0,
    {
        CombLp {
            d: DelayLine::new(cap),
            fb: 3006477107,
            lp: OnePoleLP::new(34359738368000, sr),
        }
    }

    /// Change the delay length.
    pub fn set_len(&mut self, l: usize)
        requires
            old(self).wf(),
        ensures
            final(self).wf(),
            final(self).model() == (CombModel {
                d: DelayLine::set_len_s(old(self).d.model(), l as int),
                fb: old(self).fb,
                lp: old(self).lp,
            }),
    {
        self.d.set_len(l);
    }

    /// Change the feedback, clamped into `[0, 0.99]`.
    pub fn set_feedback(&mut self, fb: i64)
        requires
            old(self).wf(),
        ensures
            final(self).wf(),
            final(self).model() == (CombModel {
                d: old(self).d.model(),
                fb: clamp_s(fb as int, 0, FB_MAX as int) as i64,
                lp: old(self).lp,
            }),
    {
        self.fb = clamp_q(fb, 0, FB_MAX);
    }

    /// Change the damping cutoff of the internal low-pass.
    pub fn set_damp_cut(&mut self, hz: i64)
        requires
            old(self).wf(),
        ensures
            final(self).wf(),
            final(self).model() == (CombModel {
                d: old(self).d.model(),
                fb: old(self).fb,
                lp: OnePoleLP {
                    fc: if hz < 0 { 0i64 } else { hz },
                    a: OnePoleLP::coeff_s(if hz < 0 { 0int } else { hz as int },
                        old(self).lp.sr as int) as i64,
                    ..old(self).lp
                },
            }),
    {
        self.lp.set_cutoff_hz(hz);
    }

    /// Re-derive the internal low-pass for a new sample rate.
    pub fn set_sr(&mut self, sr: u32)
        requires
            old(self).wf(),
        ensures
            final(self).wf(),
            final(self).model() == (CombModel {
                d: old(self).d.model(),
                fb: old(self).fb,
                lp: OnePoleLP {
                    sr: clamp_sr_s(sr as int) as u32,
                    a: OnePoleLP::coeff_s(old(self).lp.fc as int, clamp_sr_s(sr as int)) as i64,
                    ..old(self).lp
                },
            }),
    {
        self.lp.set_sample_rate(sr);
    }

    /// One comb step on the model: the tap is the raw delayed sample; the
    /// damped delayed sample scaled by the feedback joins the input in the
    /// written value.
    pub open spec fn step_s(m: CombModel, x: int) -> (CombModel, int) {
        let z = m.d.buf[m.d.i];
        let zd = m.lp.y + qmul_s(m.lp.a as int, z - m.lp.y);
        let w = clamp_s(x + qmul_s(m.fb as int, zd), -(SIG as int), SIG as int);
        (CombModel {
            d: DelayModel {
                buf: m.d.buf.update(m.d.i, w as i64),
                i: DelayLine::next_i_s(m.d),
                len: m.d.len,
            },
            fb: m.fb,
            lp: OnePoleLP { y: zd as i64, ..m.lp },
        }, z as int)
    }

    /// Process one sample, returning the raw tap.
    pub fn process(&mut self, x: i64) -> (r: i64)
        requires
            old(self).wf(),
            iabs(x as int) <= SIG,
        ensures
            final(self).wf(),
            (final(self).model(), r as int) == Self::step_s(old(self).model(), x as int),
            iabs(r as int) <= SIG,
    {
        let z = self.d.read();
        let zd = self.lp.process(z);
        proof {
            lemma_mul_le(self.fb as int, zd as int, 0x100000000, 0x200000000000);
            lemma_qmul_unit_abs(self.fb as int, zd as int);
        }
        let w = clamp_q(x + qmul(self.fb, zd), -SIG, SIG);
        self.d.write_advance(w);
        kill_denormals(z)
    }
}

/// The ghost model of the whole tank.
#[verifier::ext_equal]
pub struct ReverbModel {
    pub sr: u32,
    pub ap1: ApModel,
    pub ap2: ApModel,
    pub c1: CombModel,
    pub c2: CombModel,
    pub c3: CombModel,
    pub c4: CombModel,
    pub ap3: ApModel,
    pub ap4: ApModel,
    pub room: i64,
    pub damp: i64,
    pub mix: i64,
    pub pre_delay_samps: int,
}

/// Mono reverb tank with a small footprint:
/// `input → AP1 → AP2 → {4 parallel combs, averaged} → AP3 → AP4 → wet`,
/// mixed with the dry input by `mix`.
#[derive(Clone, Debug)]
pub struct ReverbLite {
    /// Sample rate in Hz, clamped into `[1, SR_MAX]`.
    pub sr: u32,
    /// First pre-diffusion all-pass.
    pub ap1: Allpass,
    /// Second pre-diffusion all-pass.
    pub ap2: Allpass,
    /// Comb tank, four mutually-incommensurate lengths.
    pub c1: CombLp,
    pub c2: CombLp,
    pub c3: CombLp,
    pub c4: CombLp,
    /// First post-diffusion all-pass.
    pub ap3: Allpass,
    /// Second post-diffusion all-pass.
    pub ap4: Allpass,
    /// Room size control in `[0, ONE]`.
    pub room: i64,
    /// Damping control in `[0, ONE]`.
    pub damp: i64,
    /// Dry/wet mix in `[0, ONE]`.
    pub mix: i64,
    /// Approximated pre-delay in samples (documented, not a separate
    /// delay: the diffusion stage stands in for it).
    pub pre_delay_samps: usize,
}

impl ReverbLite {
    /// The tank's ghost model.
    pub open spec fn model(&self) -> ReverbModel {
        ReverbModel {
            sr: self.sr,
            ap1: self.ap1.model(),
            ap2: self.ap2.model(),
            c1: self.c1.model(),
            c2: self.c2.model(),
            c3: self.c3.model(),
            c4: self.c4.model(),
            ap3: self.ap3.model(),
            ap4: self.ap4.model(),
            room: self.room,
            damp: self.damp,
            mix: self.mix,
            pre_delay_samps: self.pre_delay_samps as int,
        }
    }

    /// Well-formed: every stage sound, capacities as declared, controls
    /// clamped.
    pub open spec fn wf(&self) -> bool {
        &&& 1 <= self.sr <= SR_MAX
        &&& self.ap1.wf() && self.ap1.d.buf@.len() == MAX_PRE_AP
        &&& self.ap2.wf() && self.ap2.d.buf@.len() == MAX_PRE_AP
        &&& self.c1.wf() && self.c1.d.buf@.len() == MAX_TANK
        &&& self.c2.wf() && self.c2.d.buf@.len() == MAX_TANK
        &&& self.c3.wf() && self.c3.d.buf@.len() == MAX_TANK
        &&& self.c4.wf() && self.c4.d.buf@.len() == MAX_TANK
        &&& self.ap3.wf() && self.ap3.d.buf@.len() == MAX_POST_AP
        &&& self.ap4.wf() && self.ap4.d.buf@.len() == MAX_POST_AP
        &&& 0 <= self.room <= ONE
        &&& 0 <= self.damp <= ONE
        &&& 0 <= self.mix <= ONE
    }

    /// A delay length scaled from the 48 kHz reference to `sr`.
    pub open spec fn scaled_len_s(base: int, sr: int) -> int {
        base * sr / 48000
    }

    fn scaled_len(base: u32, sr: u32) -> (r: usize)
        requires
            1 <= base <= 20000,
            1 <= sr <= SR_MAX,
        ensures
            r == Self::scaled_len_s(base as int, sr as int),
            r <= 500000000,
    {
        proof {
            lemma_mul_le(base as int, sr as int, 20000, 1000000);
            vstd::arithmetic::div_mod::lemma_div_is_ordered(
                (base as int) * (sr as int), 20000000000, 48000);
            vstd::arithmetic::div_mod::lemma_div_pos_is_pos((base as int) * (sr as int), 48000);
            assert((base as int) * (sr as int) >= 0) by (nonlinear_arith)
                requires base as int >= 1, sr as int >= 1,
            {}
        }
        let n: u64 = (base as u64) * (sr as u64) / 48000u64;
        n as usize
    }

    /// The coefficients and lengths `reset` derives for rate `sr`:
    /// all-pass lengths and gains, comb lengths and their low-pass rates,
    /// the pre-delay, and the control-derived comb parameters.
    pub open spec fn reset_s(m: ReverbModel, sr0: int) -> ReverbModel {
        let sr = clamp_sr_s(sr0);
        let m1 = ReverbModel {
            sr: sr as u32,
            ap1: ApModel {
                d: DelayLine::set_len_s(m.ap1.d, Self::scaled_len_s(641, sr)),
                g: 3092376453,
            },
            ap2: ApModel {
                d: DelayLine::set_len_s(m.ap2.d, Self::scaled_len_s(997, sr)),
                g: 3006477107,
            },
            c1: CombModel {
                d: DelayLine::set_len_s(m.c1.d, Self::scaled_len_s(7789, sr)),
                fb: m.c1.fb,
                lp: OnePoleLP {
                    sr: sr as u32,
                    a: OnePoleLP::coeff_s(m.c1.lp.fc as int, sr) as i64,
                    ..m.c1.lp
                },
            },
            c2: CombModel {
                d: DelayLine::set_len_s(m.c2.d, Self::scaled_len_s(8513, sr)),
                fb: m.c2.fb,
                lp: OnePoleLP {
                    sr: sr as u32,
                    a: OnePoleLP::coeff_s(m.c2.lp.fc as int, sr) as i64,
                    ..m.c2.lp
                },
            },
            c3: CombModel {
                d: DelayLine::set_len_s(m.c3.d, Self::scaled_len_s(9449, sr)),
                fb: m.c3.fb,
                lp: OnePoleLP {
                    sr: sr as u32,
                    a: OnePoleLP::coeff_s(m.c3.lp.fc as int, sr) as i64,
                    ..m.c3.lp
                },
            },
            c4: CombModel {
                d: DelayLine::set_len_s(m.c4.d, Self::scaled_len_s(10867, sr)),
                fb: m.c4.fb,
                lp: OnePoleLP {
                    sr: sr as u32,
                    a: OnePoleLP::coeff_s(m.c4.lp.fc as int, sr) as i64,
                    ..m.c4.lp
                },
            },
            ap3: ApModel {
                d: DelayLine::set_len_s(m.ap3.d, Self::scaled_len_s(579, sr)),
                g: 2791728742,
            },
            ap4: ApModel {
                d: DelayLine::set_len_s(m.ap4.d, Self::scaled_len_s(773, sr)),
                g: 2619930051,
            },
            room: m.room,
            damp: m.damp,
            mix: m.mix,
            pre_delay_samps: sr * 12 / 1000,
        };
        Self::update_params_s(m1)
    }

    /// The comb feedback the `room` control dictates: `0.55 + 0.40·room`.
    pub open spec fn room_fb_s(room: i64) -> int {
        clamp_s(2362232013 + qmul_s(1717986918, clamp_s(room as int, 0, ONE as int)),
            0, FB_MAX as int)
    }

    /// The comb damping cutoff the `damp` control dictates:
    /// `2000 + 12000·(1 - damp)` Hz.
    pub open spec fn damp_cut_s(damp: i64) -> int {
        8589934592000 + qmul_s(51539607552000, (ONE as int) - clamp_s(damp as int, 0, ONE as int))
    }

    /// The model after the control-derived comb parameters are pushed into
    /// the four combs and the mix is clamped.
    pub open spec fn update_params_s(m: ReverbModel) -> ReverbModel {
        let fb = Self::room_fb_s(m.room) as i64;
        let cut = Self::damp_cut_s(m.damp) as i64;
        ReverbModel {
            c1: CombModel {
                d: m.c1.d,
                fb: fb,
                lp: OnePoleLP {
                    fc: cut,
                    a: OnePoleLP::coeff_s(cut as int, m.c1.lp.sr as int) as i64,
                    ..m.c1.lp
                },
            },
            c2: CombModel {
                d: m.c2.d,
                fb: fb,
                lp: OnePoleLP {
                    fc: cut,
                    a: OnePoleLP::coeff_s(cut as int, m.c2.lp.sr as int) as i64,
                    ..m.c2.lp
                },
            },
            c3: CombModel {
                d: m.c3.d,
                fb: fb,
                lp: OnePoleLP {
                    fc: cut,
                    a: OnePoleLP::coeff_s(cut as int, m.c3.lp.sr as int) as i64,
                    ..m.c3.lp
                },
            },
            c4: CombModel {
                d: m.c4.d,
                fb: fb,
                lp: OnePoleLP {
                    fc: cut,
                    a: OnePoleLP::coeff_s(cut as int, m.c4.lp.sr as int) as i64,
                    ..m.c4.lp
                },
            },
            mix: clamp_s(m.mix as int, 0, ONE as int) as i64,
            ..m
        }
    }

    fn update_params(&mut self)
        requires
            old(self).wf(),
        ensures
            final(self).wf(),
            final(self).model() == Self::update_params_s(old(self).model()),
    {
        proof {
            lemma_mul_le(1717986918, clamp_s(self.room as int, 0, ONE as int),
                0x66666666, 0x100000000);
            lemma_qmul_unit(clamp_s(self.room as int, 0, ONE as int), 1717986918);
            lemma_qmul_comm(1717986918, clamp_s(self.room as int, 0, ONE as int));
        }
        let fb = clamp_q(2362232013 + qmul(1717986918, clamp_q(self.room, 0, ONE)), 0, FB_MAX);
        proof {
            let dc = (ONE - clamp_s(self.damp as int, 0, ONE as int)) as int;
            lemma_mul_le(51539607552000, dc, 0x2EE00000000000, 0x100000000);
            lemma_qmul_comm(51539607552000, dc);
            lemma_qmul_unit(dc, 51539607552000);
        }
        let cut = 8589934592000 + qmul(51539607552000, ONE - clamp_q(self.damp, 0, ONE));
        self.c1.set_feedback(fb);
        self.c1.set_damp_cut(cut);
        self.c2.set_feedback(fb);
        self.c2.set_damp_cut(cut);
        self.c3.set_feedback(fb);
        self.c3.set_damp_cut(cut);
        self.c4.set_feedback(fb);
        self.c4.set_damp_cut(cut);
        self.mix = clamp_q(self.mix, 0, ONE);
    }

    /// A fresh tank at rate `sr` with the stock controls:
    /// room `0.6`, damp `0.4`, mix `0.25`.
    pub fn new(sr: u32) -> (r: ReverbLite)
        ensures
            r.wf(),
            r.sr == clamp_sr_s(sr as int),
            r.room == 2576980378i64,
            r.damp == 1717986918i64,
            r.mix == 1073741824i64,
            forall|k: int| 0 <= k < r.ap1.d.buf@.len() ==> r.ap1.d.buf@[k] == 0,
            forall|k: int| 0 <= k < r.ap2.d.buf@.len() ==> r.ap2.d.buf@[k] == 0,
            forall|k: int| 0 <= k < r.c1.d.buf@.len() ==> r.c1.d.buf@[k] == 0,
            forall|k: int| 0 <= k < r.c2.d.buf@.len() ==> r.c2.d.buf@[k] == 0,
            forall|k: int| 0 <= k < r.c3.d.buf@.len() ==> r.c3.d.buf@[k] == 0,
            forall|k: int| 0 <= k < r.c4.d.buf@.len() ==> r.c4.d.buf@[k] == 0,
            forall|k: int| 0 <= k < r.ap3.d.buf@.len() ==> r.ap3.d.buf@[k] == 0,
            forall|k: int| 0 <= k < r.ap4.d.buf@.len() ==> r.ap4.d.buf@[k] == 0,
            exists|m0: ReverbModel| r.model() == Self::reset_s(m0, sr as int)
                && m0.room == 2576980378 && m0.damp == 1717986918 && m0.mix == 1073741824,
    {
        let mut s = ReverbLite {
            sr: clamp_sr(sr),
            ap1: Allpass::new(MAX_PRE_AP, 3006477107),
            ap2: Allpass::new(MAX_PRE_AP, 3006477107),
            c1: CombLp::new(MAX_TANK, sr),
            c2: CombLp::new(MAX_TANK, sr),
            c3: CombLp::new(MAX_TANK, sr),
            c4: CombLp::new(MAX_TANK, sr),
            ap3: Allpass::new(MAX_POST_AP, 2576980378),
            ap4: Allpass::new(MAX_POST_AP, 2576980378),
            room: 2576980378,
            damp: 1717986918,
            mix: 1073741824,
            pre_delay_samps: 0,
        };
        let ghost m0 = s.model();
        s.reset(sr);
        proof {
            assert(s.model() == Self::reset_s(m0, sr as int));
        }
        s
    }

    /// Re-derive every length and coefficient for sample rate `sr`; the
    /// derivation depends only on `sr` and the stored controls, so a
    /// second call with the same rate changes nothing further.
    pub fn reset(&mut self, sr: u32)
        requires
            old(self).wf(),
        ensures
            final(self).wf(),
            final(self).model() == Self::reset_s(old(self).model(), sr as int),
    {
        self.sr = clamp_sr(sr);
        let l1 = Self::scaled_len(641, self.sr);
        self.ap1.set_len(l1);
        self.ap1.set_g(3092376453);
        let l2 = Self::scaled_len(997, self.sr);
        self.ap2.set_len(l2);
        self.ap2.set_g(3006477107);
        let lc1 = Self::scaled_len(7789, self.sr);
        self.c1.set_len(lc1);
        let lc2 = Self::scaled_len(8513, self.sr);
        self.c2.set_len(lc2);
        let lc3 = Self::scaled_len(9449, self.sr);
        self.c3.set_len(lc3);
        let lc4 = Self::scaled_len(10867, self.sr);
        self.c4.set_len(lc4);
        self.c1.set_sr(self.sr);
        self.c2.set_sr(self.sr);
        self.c3.set_sr(self.sr);
        self.c4.set_sr(self.sr);
        let l3 = Self::scaled_len(579, self.sr);
        self.ap3.set_len(l3);
        self.ap3.set_g(2791728742);
        let l4 = Self::scaled_len(773, self.sr);
        self.ap4.set_len(l4);
        self.ap4.set_g(2619930051);
        let pd: u64 = (self.sr as u64) * 12u64 / 1000u64;
        self.pre_delay_samps = pd as usize;
        self.update_params();
    }

    /// Reconfiguring twice with the same rate yields the very same state:
    /// the derivation has no hidden accumulation.
    pub proof fn lemma_reset_idempotent(m: ReverbModel, sr: int)
        ensures
            Self::reset_s(Self::reset_s(m, sr), sr) == Self::reset_s(m, sr),
    {
        let a = Self::reset_s(m, sr);
        let b = Self::reset_s(a, sr);
        assert(b.ap1 =~= a.ap1);
        assert(b.ap2 =~= a.ap2);
        assert(b.c1 =~= a.c1);
        assert(b.c2 =~= a.c2);
        assert(b.c3 =~= a.c3);
        assert(b.c4 =~= a.c4);
        assert(b.ap3 =~= a.ap3);
        assert(b.ap4 =~= a.ap4);
        assert(b =~= a);
    }

    /// Set the room-size control; the comb parameters follow.
    pub fn set_room(&mut self, v: i64)
        requires
            old(self).wf(),
        ensures
            final(self).wf(),
            final(self).model() == Self::update_params_s(ReverbModel {
                room: clamp_s(v as int, 0, ONE as int) as i64, ..old(self).model()
            }),
    {
        self.room = clamp_q(v, 0, ONE);
        self.update_params();
    }

    /// Set the damping control; the comb parameters follow.
    pub fn set_damp(&mut self, v: i64)
        requires
            old(self).wf(),
        ensures
            final(self).wf(),
            final(self).model() == Self::update_params_s(ReverbModel {
                damp: clamp_s(v as int, 0, ONE as int) as i64, ..old(self).model()
            }),
    {
        self.damp = clamp_q(v, 0, ONE);
        self.update_params();
    }

    /// Set the dry/wet mix; it is clamped into `[0, 1]`.
    pub fn set_mix(&mut self, v: i64)
        requires
            old(self).wf(),
        ensures
            final(self).wf(),
            final(self).model() == Self::update_params_s(ReverbModel {
                mix: clamp_s(v as int, 0, ONE as int) as i64, ..old(self).model()
            }),
    {
        self.mix = clamp_q(v, 0, ONE);
        self.update_params();
    }

    /// One full tank step on the model: diffuse, run the four combs in
    /// parallel, average, diffuse again, and mix with the dry input.
    pub open spec fn step_s(m: ReverbModel, x: int) -> (ReverbModel, int) {
        let s1 = Allpass::step_s(m.ap1, x);
        let s2 = Allpass::step_s(m.ap2, s1.1);
        let pre = s2.1;
        let k1 = CombLp::step_s(m.c1, pre);
        let k2 = CombLp::step_s(m.c2, pre);
        let k3 = CombLp::step_s(m.c3, pre);
        let k4 = CombLp::step_s(m.c4, pre);
        let sum = qmul_s(QUARTER as int, k1.1 + k2.1 + k3.1 + k4.1);
        let s3 = Allpass::step_s(m.ap3, sum);
        let s4 = Allpass::step_s(m.ap4, s3.1);
        let y = clamp_s(
            qmul_s((ONE - m.mix) as int, x) + qmul_s(m.mix as int, s4.1),
            -(SIG as int), SIG as int);
        (ReverbModel {
            ap1: s1.0,
            ap2: s2.0,
            c1: k1.0,
            c2: k2.0,
            c3: k3.0,
            c4: k4.0,
            ap3: s3.0,
            ap4: s4.0,
            ..m
        }, y)
    }

    /// Process one mono sample; returns the mixed dry and wet signal.
    pub fn process(&mut self, x: i64) -> (r: i64)
        requires
            old(self).wf(),
            iabs(x as int) <= SIG,
        ensures
            final(self).wf(),
            (final(self).model(), r as int) == Self::step_s(old(self).model(), x as int),
            iabs(r as int) <= SIG,
    {
        let p1 = self.ap1.process(x);
        let pre = self.ap2.process(p1);
        let y1 = self.c1.process(pre);
        let y2 = self.c2.process(pre);
        let y3 = self.c3.process(pre);
        let y4 = self.c4.process(pre);
        let s4: i64 = y1 + y2 + y3 + y4;
        proof {
            lemma_mul_le(QUARTER as int, s4 as int, 0x40000000, 0x800000000000);
            lemma_qmul_unit(QUARTER as int, s4 as int);
        }
        let sum = qmul(QUARTER, s4);
        proof {
            assert(iabs(sum as int) <= SIG);
        }
        let q1 = self.ap3.process(sum);
        let post = self.ap4.process(q1);
        proof {
            lemma_mul_le((ONE - self.mix) as int, x as int, 0x100000000, 0x200000000000);
            lemma_qmul_comm((ONE - self.mix) as int, x as int);
            lemma_qmul_unit((ONE - self.mix) as int, x as int);
            lemma_mul_le(self.mix as int, post as int, 0x100000000, 0x200000000000);
            lemma_qmul_unit(self.mix as int, post as int);
        }
        let y = clamp_q(qmul(ONE - self.mix, x) + qmul(self.mix, post), -SIG, SIG);
        kill_denormals(y)
    }
}

} // verus!
