//! The realtime synthesis core: the `Generator` capability and the
//! `Engine` host wrapper.
//!
//! A generator can be re-pointed at a sample rate (`reset`) and produce
//! one mono sample at a time (`next`).  The engine owns one generator,
//! remembers the last rate it saw, lazily resets the generator when the
//! rate changes, and accumulates elapsed time as the sum of `1/sr`.

use vstd::prelude::*;
use vstd::arithmetic::div_mod::lemma_div_is_ordered;
use crate::fixed::{ONE, SR_MAX, clamp_sr_s, clamp_sr};

verus! {

/// Saturation cap for the elapsed-time accumulator (`2^62` in Q32.32,
/// about 146 million years of audio).
pub const TIME_CAP: i64 = 4611686018427387904;

/// Anything that can generate one mono sample at a time.
///
/// `inv` is the implementation's own well-formedness, established by
/// `reset` and preserved by `next`; `rate` is the sample rate the
/// generator currently holds coefficients for.
pub trait Generator: Sized {
    /// The generator's internal well-formedness.
    spec fn inv(&self) -> bool;

    /// The clamped sample rate the generator is configured for.
    spec fn rate(&self) -> u32;

    /// Re-derive all internal coefficients for sample rate `sr` (clamped
    /// into `[1, SR_MAX]`).
    fn reset(&mut self, sr: u32)
        requires
            old(self).inv(),
        ensures
            final(self).inv(),
            final(self).rate() == clamp_sr_s(sr as int),
    ;

    /// Produce the next mono sample, inside `[-1, 1]`, without touching
    /// the configured rate.
    fn next(&mut self) -> (s: i64)
        requires
            old(self).inv(),
        ensures
            final(self).inv(),
            final(self).rate() == old(self).rate(),
            -ONE <= s <= ONE,
    ;
}

/// Lightweight realtime engine owning one generator.
pub struct Engine<G: Generator> {
    /// The last sample rate seen from the host.
    pub sr: u32,
    /// Elapsed time in Q32.32 seconds, saturating at [`TIME_CAP`].
    pub t: i64,
    /// The wrapped generator.
    pub gen: G,
}

impl<G: Generator> Engine<G> {
    /// Well-formed: the generator is sound and holds coefficients for the
    /// engine's current (clamped) rate, and the clock is in range.
    pub open spec fn wf(&self) -> bool {
        &&& self.gen.inv()
        &&& self.gen.rate() == clamp_sr_s(self.sr as int)
        &&& 0 <= self.t <= TIME_CAP
    }

    /// Wrap an already-configured generator; it is immediately reset to
    /// the default 48 kHz rate.
    pub fn new(gen: G) -> (r: Engine<G>)
        requires
            gen.inv(),
        ensures
            r.wf(),
            r.sr == 48000,
            r.t == 0,
            r.gen.rate() == 48000,
    {
        let mut g = gen;
        g.reset(48000);
        Engine { sr: 48000, t: 0, gen: g }
    }

    /// The elapsed-time accumulator after one sample at rate `sr`.
    pub open spec fn time_step_s(t: int, sr: int) -> int {
        let nt = t + (ONE as int) / clamp_sr_s(sr);
        if nt > TIME_CAP { TIME_CAP as int } else { nt }
    }

    /// Produce one mono sample at the host's rate `sr`.  If `sr` differs
    /// from the remembered rate, the generator is reset to `sr` exactly
    /// once before the sample is produced, and `sample_rate()` reports
    /// `sr` afterwards.
    pub fn next(&mut self, sr: u32) -> (s: i64)
        requires
            old(self).wf(),
        ensures
            final(self).wf(),
            final(self).sr == sr,
            final(self).gen.rate() == clamp_sr_s(sr as int),
            final(self).t == Self::time_step_s(old(self).t as int, sr as int),
            -ONE <= s <= ONE,
    {
        if sr != self.sr {
            self.sr = sr;
            self.gen.reset(sr);
        }
        let inc: i64 = ((ONE as u64) / (clamp_sr(self.sr) as u64)) as i64;
        proof {
            lemma_div_is_ordered(ONE as int, ONE as int, clamp_sr_s(self.sr as int));
        }
        let nt = self.t + inc;
        self.t = if nt > TIME_CAP { TIME_CAP } else { nt };
        self.gen.next()
    }

    /// The engine's current sample rate.
    pub fn sample_rate(&self) -> (r: u32)
        ensures
            r == self.sr,
    {
        self.sr
    }

    /// Elapsed time in Q32.32 seconds since the engine was created.
    pub fn time(&self) -> (r: i64)
        ensures
            r == self.t,
    {
        self.t
    }

    /// Replace the inner generator; the incoming one is reset to the
    /// engine's current rate, the old one is discarded.
    pub fn swap_scene(&mut self, new_scene: G)
        requires
            old(self).wf(),
            new_scene.inv(),
        ensures
            final(self).wf(),
            final(self).sr == old(self).sr,
            final(self).t == old(self).t,
            final(self).gen.rate() == clamp_sr_s(old(self).sr as int),
    {
        let mut g = new_scene;
        g.reset(self.sr);
        self.gen = g;
    }

    /// Mutable access to the inner generator for live parameter tweaks.
    /// A caller that leaves the generator unsound, or re-rates it away
    /// from the engine's own rate, must restore both before stepping.
    pub fn scene_mut(&mut self) -> (r: &mut G)
        ensures
            *r == old(self).gen,
            final(self).gen == *final(r),
            final(self).sr == old(self).sr,
            final(self).t == old(self).t,
    {
        &mut self.gen
    }
}

} // verus!
