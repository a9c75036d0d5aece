//! Engine, nodes, scene, reverb and WAV behavior.

use ambientor::dsp::{db_to_lin, one_pole_coeff_ms, one_pole_coeff_hz, soft_clip, tpt_g, DcBlock};
use ambientor::filters::OnePoleHP;
use ambientor::envelopes::AdsrLinear;
use ambientor::filters::OnePoleLP;
use ambientor::fixed::ONE;
use ambientor::graph::{Engine, Generator};
use ambientor::nodes::{Osc, Lfo, NoiseMod, Wave, OnePoleSmoother, Mix2, PanLaw};
use ambientor::reverb::ReverbLite;
use ambientor::scenes::Scene;
use ambientor::wav::{sample_to_i16, wav_bytes, render_wav, RenderError};

fn q(x: f64) -> i64 {
    (x * 4294967296.0_f64).round() as i64
}

fn fq(x: i64) -> f64 {
    (x as f64) / 4294967296.0_f64
}

#[test]
fn prelude_exists() {
    let _ = db_to_lin(-q(6.0));
    let _ = AdsrLinear::new(q(10.0), q(50.0), q(0.5), q(100.0), 48000);
    let mut lp = OnePoleLP::new(q(1000.0), 48000);
    let _ = lp.process(q(0.1));
}

struct Probe {
    resets: Vec<u32>,
    rate: u32,
}

impl Generator for Probe {
    fn inv(&self) -> bool {
        true
    }

    fn rate(&self) -> u32 {
        self.rate
    }

    fn reset(&mut self, sr: u32) {
        self.resets.push(sr);
        self.rate = sr;
    }

    fn next(&mut self) -> i64 {
        7
    }
}

#[test]
fn engine_resets_exactly_once_per_rate_change() {
    let mut e = Engine::new(Probe { resets: Vec::new(), rate: 0 });
    assert_eq!(e.scene_mut().resets, vec![48000]);
    let _ = e.next(48000);
    assert_eq!(e.scene_mut().resets, vec![48000]);
    let _ = e.next(44100);
    assert_eq!(e.scene_mut().resets, vec![48000, 44100]);
    assert_eq!(e.sample_rate(), 44100);
    let _ = e.next(44100);
    assert_eq!(e.scene_mut().resets, vec![48000, 44100]);
    assert_eq!(e.sample_rate(), 44100);
}

#[test]
fn engine_accumulates_time() {
    let mut e = Engine::new(Probe { resets: Vec::new(), rate: 0 });
    for _ in 0..48000 {
        let _ = e.next(48000);
    }
    assert!((fq(e.time()) - 1.0).abs() < 1e-4, "t={}", fq(e.time()));
}

#[test]
fn engine_swaps_scenes_at_the_current_rate() {
    let mut e = Engine::new(Probe { resets: Vec::new(), rate: 0 });
    let _ = e.next(44100);
    e.swap_scene(Probe { resets: Vec::new(), rate: 0 });
    assert_eq!(e.scene_mut().resets, vec![44100]);
    assert_eq!(e.sample_rate(), 44100);
}

#[test]
fn reverb_reset_is_idempotent() {
    let mut a = ReverbLite::new(48000);
    let mut b = a.clone();
    b.reset(48000);
    for k in 0..4000 {
        let x = if k == 0 { q(0.9) } else { 0 };
        assert_eq!(a.process(x), b.process(x));
    }
}

#[test]
fn reverb_produces_a_tail() {
    let mut r = ReverbLite::new(48000);
    let _ = r.process(q(0.9));
    let mut energy = 0.0f64;
    for _ in 0..48000 {
        energy += fq(r.process(0)).abs();
    }
    assert!(energy > 0.01, "tail energy={}", energy);
}

#[test]
fn pan_law_is_constant_power() {
    for k in -20..=20 {
        let pan = q((k as f64) / 20.0);
        let (l, r) = PanLaw::gains(pan);
        let sum = fq(l) * fq(l) + fq(r) * fq(r);
        assert!((sum - 1.0).abs() < 1e-6, "pan={} sum={}", k, sum);
        let angle = ((k as f64) / 20.0 + 1.0) * std::f64::consts::PI / 4.0;
        assert!((fq(l) - angle.cos()).abs() < 2e-3);
        assert!((fq(r) - angle.sin()).abs() < 2e-3);
    }
    let (l, r) = PanLaw::gains(-ONE);
    assert_eq!(r, 0);
    assert_eq!(l, ONE);
}

#[test]
fn oscillator_waveforms_are_exact() {
    let mut saw = Osc::new(q(12000.0), Wave::Saw);
    assert_eq!(saw.next(48000), -q(0.5));
    let mut tri = Osc::new(q(12000.0), Wave::Tri);
    assert_eq!(tri.next(48000), 0);
    let mut sine = Osc::new(q(12000.0), Wave::Sine);
    let v = sine.next(48000);
    assert!((fq(v) - 1.0).abs() < 1e-6, "sine peak={}", fq(v));
}

#[test]
fn oscillator_phase_wraps() {
    let mut o = Osc::new(q(24000.0), Wave::Saw);
    let a = o.next(48000);
    let b = o.next(48000);
    let c = o.next(48000);
    assert_eq!(a, 0);
    assert_eq!(b, -ONE);
    assert_eq!(c, 0);
    o.set_phase01(3 * ONE + 5);
    let mut p = Osc::new(0, Wave::Saw);
    p.set_phase01(-7);
    let v = p.next(48000);
    assert_eq!(v, -ONE);
}

#[test]
fn lfo_outputs_are_normalized() {
    let mut l = Lfo::sine(q(1.0));
    for _ in 0..2000 {
        let v = l.next01(48000);
        assert!(fq(v) >= 0.0 && fq(v) <= 1.0);
    }
    let mut n = Lfo::tri(q(1.0));
    for _ in 0..2000 {
        let v = n.next_norm(48000);
        assert!(fq(v) >= -1.0 && fq(v) <= 1.0);
    }
}

#[test]
fn noise_mod_is_deterministic_and_in_range() {
    let mut a = NoiseMod::new(-q(6.0), q(6.0), q(0.5), q(2.0), 48000);
    let mut b = NoiseMod::new(-q(6.0), q(6.0), q(0.5), q(2.0), 48000);
    for _ in 0..48000 {
        let va = a.next(48000);
        let vb = b.next(48000);
        assert_eq!(va, vb);
        assert!(fq(va) >= -6.0 && fq(va) <= 6.0);
    }
}

#[test]
fn smoother_and_mixer_behave() {
    let mut s = OnePoleSmoother::new_ms(q(30.0), 48000);
    for _ in 0..48000 {
        s.process(ONE);
    }
    assert!(fq(s.value()) > 0.95);
    let m = Mix2::new(q(0.5), q(2.0));
    assert_eq!(m.run(ONE, ONE), q(0.5) + q(2.0));
    assert_eq!(m.run(0, 0), 0);
}

#[test]
fn scene_renders_a_bounded_nonzero_drone() {
    let mut e = Engine::new(Scene::slow_drone(48000));
    let mut peak = 0.0f64;
    let mut energy = 0.0f64;
    for _ in 0..48000 {
        let v = fq(e.next(48000));
        assert!(v >= -1.0 && v <= 1.0);
        peak = peak.max(v.abs());
        energy += v * v;
    }
    assert!(peak > 0.01, "peak={}", peak);
    assert!(energy > 1.0, "energy={}", energy);
}

#[test]
fn scene_setters_clamp_to_safe_ranges() {
    let mut s = Scene::slow_drone(48000);
    s.set_cut_base(q(10.0));
    assert_eq!(s.base_cut, q(50.0));
    s.set_cut_span(-q(5.0));
    assert_eq!(s.cut_span, 0);
    s.set_drive(q(100.0));
    assert_eq!(s.drive, q(5.0));
    s.set_drive(0);
    assert_eq!(s.drive, q(0.1));
    s.set_gain(q(2.0));
    assert_eq!(s.out_gain, ONE);
    s.set_detune_cents(q(100.0));
    assert_eq!(s.detune_cents, q(25.0));
}

#[test]
fn scene_survives_rate_changes() {
    let mut e = Engine::new(Scene::slow_drone(48000));
    for _ in 0..1000 {
        let _ = e.next(48000);
    }
    for _ in 0..1000 {
        let v = fq(e.next(44100));
        assert!(v >= -1.0 && v <= 1.0);
    }
    assert_eq!(e.sample_rate(), 44100);
}

#[test]
fn sample_conversion_is_exact() {
    assert_eq!(sample_to_i16(ONE), 32767);
    assert_eq!(sample_to_i16(-ONE), -32767);
    assert_eq!(sample_to_i16(q(2.0)), 32767);
    assert_eq!(sample_to_i16(-q(2.0)), -32767);
    assert_eq!(sample_to_i16(0), 0);
    assert_eq!(sample_to_i16(q(0.5)), 16383);
}

#[test]
fn wav_header_matches_the_documented_formulas() {
    let data: Vec<i16> = vec![0, 1000, -1000];
    let b = wav_bytes(44100, 2, &data);
    assert_eq!(b.len(), 44 + 6);
    assert_eq!(&b[0..4], b"RIFF");
    assert_eq!(u32::from_le_bytes([b[4], b[5], b[6], b[7]]), 36 + 6);
    assert_eq!(&b[8..12], b"WAVE");
    assert_eq!(&b[12..16], b"fmt ");
    assert_eq!(u32::from_le_bytes([b[16], b[17], b[18], b[19]]), 16);
    assert_eq!(u16::from_le_bytes([b[20], b[21]]), 1);
    assert_eq!(u16::from_le_bytes([b[22], b[23]]), 2);
    assert_eq!(u32::from_le_bytes([b[24], b[25], b[26], b[27]]), 44100);
    assert_eq!(u32::from_le_bytes([b[28], b[29], b[30], b[31]]), 44100 * 4);
    assert_eq!(u16::from_le_bytes([b[32], b[33]]), 4);
    assert_eq!(u16::from_le_bytes([b[34], b[35]]), 16);
    assert_eq!(&b[36..40], b"data");
    assert_eq!(u32::from_le_bytes([b[40], b[41], b[42], b[43]]), 6);
    assert_eq!(i16::from_le_bytes([b[44], b[45]]), 0);
    assert_eq!(i16::from_le_bytes([b[46], b[47]]), 1000);
    assert_eq!(i16::from_le_bytes([b[48], b[49]]), -1000);
}

#[test]
fn render_wav_produces_a_complete_stream() {
    let mut e = Engine::new(Scene::slow_drone(48000));
    let b = render_wav(&mut e, q(0.01), 2).unwrap();
    assert_eq!(b.len(), 44 + 480 * 2 * 2);
    assert_eq!(&b[0..4], b"RIFF");
    assert_eq!(u32::from_le_bytes([b[24], b[25], b[26], b[27]]), 48000);
    assert_eq!(u16::from_le_bytes([b[22], b[23]]), 2);
}

#[test]
fn render_wav_rejects_zero_channels() {
    let mut e = Engine::new(Scene::slow_drone(48000));
    let r = render_wav(&mut e, q(1.0), 0);
    assert_eq!(r.unwrap_err(), RenderError::ZeroChannels);
}

#[test]
fn render_wav_rejects_nonpositive_duration() {
    let mut e = Engine::new(Scene::slow_drone(48000));
    let r = render_wav(&mut e, 0, 2);
    assert_eq!(r.unwrap_err(), RenderError::NonPositiveDuration);
    let r2 = render_wav(&mut e, -q(1.0), 1);
    assert_eq!(r2.unwrap_err(), RenderError::NonPositiveDuration);
}

#[test]
fn the_two_dc_blockers_agree_numerically() {
    let sr = 48000u32;
    let mut lean = DcBlock::new(one_pole_coeff_hz(q(20.0), sr));
    let mut hp = OnePoleHP::new(q(20.0), sr);
    for k in 0..4000 {
        let x = q(((k as f64) * 0.37).sin() * 0.8);
        assert_eq!(lean.process(x), hp.process(x));
    }
}

#[test]
fn tpt_gain_tracks_the_tangent() {
    for (cut, sr) in [(1000.0, 48000u32), (4000.0, 48000), (200.0, 44100)] {
        let g = fq(tpt_g(q(cut), sr));
        let want = (std::f64::consts::PI * cut / (sr as f64)).tan();
        assert!((g - want).abs() < 2e-3, "cut={} g={} want={}", cut, g, want);
    }
}

#[test]
fn soft_clip_is_odd_and_monotone_on_samples() {
    let mut prev = soft_clip(-q(4.0));
    for k in -39..=40 {
        let x = q((k as f64) / 10.0);
        let y = soft_clip(x);
        assert!(y >= prev, "not monotone at {}", k);
        let neg = soft_clip(-x);
        assert!((fq(y) + fq(neg)).abs() < 1e-6);
        prev = y;
    }
    let _ = one_pole_coeff_ms(q(1.0), 48000);
    let _ = one_pole_coeff_hz(q(1.0), 48000);
}
