//! Envelope behavior: the linear and exponential ADSRs, the percussive
//! AR shape, and the slew limiter.

use ambientor::envelopes::{AdsrLinear, AdsrExp, ArExp, SlewLimiter};
use ambientor::fixed::ONE;

fn q(x: f64) -> i64 {
    (x * 4294967296.0_f64).round() as i64
}

fn fq(x: i64) -> f64 {
    (x as f64) / 4294967296.0_f64
}

#[test]
fn adsr_linear_reaches_sustain() {
    let sr = 48000u32;
    let mut env = AdsrLinear::new(q(10.0), q(50.0), q(0.5), q(200.0), sr);
    env.gate_on();
    for _ in 0..(sr as usize / 2) {
        env.next();
    }
    let v = fq(env.value());
    assert!(v > 0.45 && v < 0.55, "v={v}");
    env.gate_off();
    for _ in 0..(sr as usize) {
        env.next();
    }
    assert!(fq(env.value()) < 0.01);
}

#[test]
fn adsr_exp_behaves() {
    let sr = 48000u32;
    let mut env = AdsrExp::new(q(5.0), q(100.0), q(0.3), q(200.0), sr);
    env.gate_on();
    for _ in 0..(sr as usize / 4) {
        env.next();
    }
    assert!(fq(env.value()) <= 1.0 + 1e-3);
    env.gate_off();
    for _ in 0..(sr as usize / 2) {
        env.next();
    }
    assert!(fq(env.value()) < 0.05);
}

#[test]
fn ar_exp_triggers_and_dies() {
    let sr = 48000u32;
    let mut e = ArExp::new(q(1.0), q(200.0), sr);
    e.trigger();
    let mut maxv = 0.0f64;
    for _ in 0..(sr as usize) {
        let v = fq(e.next());
        if v > maxv {
            maxv = v;
        }
    }
    assert!(maxv > 0.8 && fq(e.value()) < 0.01);
}

#[test]
fn slew_moves_towards_target() {
    let sr = 48000u32;
    let mut s = SlewLimiter::new(q(50.0), sr);
    for _ in 0..(sr as usize) {
        s.process(ONE);
    }
    assert!(fq(s.value()) > 0.9);
}

#[test]
fn adsr_linear_zero_attack_is_instant() {
    let mut env = AdsrLinear::new(0, q(50.0), q(0.5), q(200.0), 48000);
    env.gate_on();
    let v = env.next();
    assert_eq!(v, ONE);
}

#[test]
fn adsr_linear_zero_release_is_instant() {
    let mut env = AdsrLinear::new(q(1.0), q(1.0), q(0.5), 0, 48000);
    env.gate_on();
    for _ in 0..1000 {
        env.next();
    }
    env.gate_off();
    let v = env.next();
    assert_eq!(v, 0);
}

#[test]
fn adsr_linear_idle_stays_silent() {
    let mut env = AdsrLinear::new(q(10.0), q(50.0), q(0.5), q(200.0), 48000);
    for _ in 0..100 {
        assert_eq!(env.next(), 0);
    }
}

#[test]
fn adsr_linear_set_params_keeps_value() {
    let mut env = AdsrLinear::new(q(10.0), q(50.0), q(0.5), q(200.0), 48000);
    env.gate_on();
    for _ in 0..240 {
        env.next();
    }
    let before = env.value();
    env.set_params(q(20.0), q(60.0), q(0.7), q(100.0));
    assert_eq!(env.value(), before);
}

#[test]
fn adsr_exp_holds_at_sustain() {
    let sr = 48000u32;
    let mut env = AdsrExp::new(q(1.0), q(5.0), q(0.3), q(200.0), sr);
    env.gate_on();
    for _ in 0..(sr as usize) {
        env.next();
    }
    assert!((fq(env.value()) - 0.3).abs() < 1e-3, "v={}", fq(env.value()));
}

#[test]
fn ar_exp_snaps_to_exact_zero() {
    let sr = 48000u32;
    let mut e = ArExp::new(q(1.0), q(20.0), sr);
    e.trigger();
    for _ in 0..(sr as usize) {
        e.next();
    }
    assert_eq!(e.value(), 0);
}

#[test]
fn slew_reset_hard_sets_the_value() {
    let mut s = SlewLimiter::new(q(50.0), 48000);
    s.reset(q(0.75));
    assert_eq!(s.value(), q(0.75));
    let v = s.process(q(0.75));
    assert_eq!(v, q(0.75));
}
