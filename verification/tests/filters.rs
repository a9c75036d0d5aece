//! Filter behavior: one-pole low/high-pass step responses, the DC
//! blocker, and TPT state-variable filter stability.

use ambientor::filters::{OnePoleLP, OnePoleHP, DcBlock, SvfMode, SvfTpt};
use ambientor::fixed::ONE;

fn q(x: f64) -> i64 {
    (x * 4294967296.0_f64).round() as i64
}

fn fq(x: i64) -> f64 {
    (x as f64) / 4294967296.0_f64
}

#[test]
fn one_pole_lp_moves_towards_input() {
    let sr = 48000u32;
    let mut lp = OnePoleLP::new(q(1000.0), sr);
    let mut y = 0i64;
    for _ in 0..(sr as usize) {
        y = lp.process(ONE);
    }
    assert!(fq(y) > 0.9, "y={}", fq(y));
}

#[test]
fn one_pole_hp_blocks_dc() {
    let sr = 48000u32;
    let mut hp = OnePoleHP::new(q(20.0), sr);
    let mut y = 0i64;
    for _ in 0..(sr as usize) {
        y = hp.process(ONE);
    }
    assert!(fq(y).abs() < 1e-2, "y={}", fq(y));
}

#[test]
fn svf_lp_is_sane() {
    let sr = 48000u32;
    let mut svf = SvfTpt::new(q(1000.0), q(0.707), sr);
    let mut acc = 0i64;
    for _ in 0..(sr as usize) {
        acc = svf.process_lp(ONE);
    }
    assert!(fq(acc) <= 2.0, "svf runaway? {}", fq(acc));
}

#[test]
fn dc_block_matches_its_high_pass() {
    let sr = 48000u32;
    let mut dc = DcBlock::new(q(20.0), sr);
    let mut hp = OnePoleHP::new(q(20.0), sr);
    for k in 0..2000 {
        let x = if k % 3 == 0 { q(0.5) } else { -q(0.25) };
        assert_eq!(dc.process(x), hp.process(x));
    }
}

#[test]
fn one_pole_lp_passes_low_frequencies() {
    let sr = 48000u32;
    let mut lp = OnePoleLP::new(q(20000.0), sr);
    let mut y = 0i64;
    for _ in 0..100 {
        y = lp.process(HALF_Q);
    }
    assert!((fq(y) - 0.5).abs() < 1e-3, "y={}", fq(y));
}

const HALF_Q: i64 = 2147483648;

#[test]
fn svf_taps_are_consistent() {
    let sr = 48000u32;
    let mut a = SvfTpt::new(q(1000.0), q(0.707), sr);
    let mut b = SvfTpt::new(q(1000.0), q(0.707), sr);
    for k in 0..1000 {
        let x = if k % 2 == 0 { q(0.3) } else { -q(0.3) };
        let (lp, bp, hp, notch) = a.process_all(x);
        let sel = b.process(x, SvfMode::Notch);
        assert_eq!(sel, notch);
        assert_eq!(notch, clamp_guard(hp + lp));
        let _ = bp;
    }
}

fn clamp_guard(x: i64) -> i64 {
    let sig = 35184372088832i64;
    if x < -sig {
        -sig
    } else if x > sig {
        sig
    } else {
        x
    }
}

#[test]
fn filters_recover_after_rate_change() {
    let mut lp = OnePoleLP::new(q(1000.0), 48000);
    lp.set_sample_rate(96000);
    let mut y = 0i64;
    for _ in 0..96000 {
        y = lp.process(ONE);
    }
    assert!(fq(y) > 0.9, "y={}", fq(y));
}
