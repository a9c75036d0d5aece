//! Math-layer behavior: dB conversion, nonlinearities, meters and block
//! helpers, exercised through the public Q32.32 interface.

use ambientor::dsp::{
    clamp, signum_nonzero, lerp, smoothstep, wrap_phase01, kill_denormals, db_to_lin, lin_to_db,
    fast_sin, fast_cos, soft_clip, saturate, one_pole_coeff_ms, one_pole_coeff_hz, Rms, DcBlock,
    mix_in_place, fill_sine, DB_FLOOR,
};
use ambientor::dsp::PI_Q;
use ambientor::fixed::ONE;
use ambientor::qmath::{HALF, QUARTER, TWO_PI};

fn q(x: f64) -> i64 {
    (x * 4294967296.0_f64).round() as i64
}

fn fq(x: i64) -> f64 {
    (x as f64) / 4294967296.0_f64
}

#[test]
fn db_lin_roundtrip() {
    for db in [-60.0, -20.0, -6.0, 0.0, 6.0, 12.0, 24.0] {
        let lin = db_to_lin(q(db));
        let back = lin_to_db(lin);
        assert!((db - fq(back)).abs() < 0.1, "db={}, back={}", db, fq(back));
    }
}

#[test]
fn soft_clip_is_bounded() {
    for x in [-10.0, -2.0, -1.0, 0.0, 1.0, 2.0, 10.0] {
        let y = soft_clip(q(x));
        assert!(fq(y) <= 1.0 + 1e-4 && fq(y) >= -1.0 - 1e-4, "x={} y={}", x, fq(y));
    }
}

#[test]
fn rms_decreases_to_zero() {
    let mut rms = Rms::new(one_pole_coeff_ms(q(10.0), 48000));
    let mut v = 0i64;
    for _ in 0..10000 {
        v = rms.tick(0);
    }
    assert!(fq(v) < 1e-3);
}

#[test]
fn soft_clip_tracks_tanh() {
    for x in [-3.0, -1.5, -0.5, 0.0, 0.5, 1.5, 3.0] {
        let y = fq(soft_clip(q(x)));
        assert!((y - x.tanh()).abs() < 0.035, "x={} y={} tanh={}", x, y, x.tanh());
    }
}

#[test]
fn saturate_drives_harder() {
    let soft = saturate(q(0.5), q(1.0));
    let hard = saturate(q(0.5), q(5.0));
    assert!(fq(hard) > fq(soft));
    assert!(fq(hard) <= 1.0 && fq(soft) >= -1.0);
}

#[test]
fn db_conversions_hit_exact_anchors() {
    assert_eq!(db_to_lin(0), ONE);
    assert_eq!(db_to_lin(DB_FLOOR), 0);
    assert_eq!(db_to_lin(DB_FLOOR - 1), 0);
    assert_eq!(lin_to_db(0), DB_FLOOR);
    assert_eq!(lin_to_db(-5), DB_FLOOR);
    assert!((fq(db_to_lin(q(6.0))) - 1.99526).abs() < 1e-3);
    assert!((fq(lin_to_db(q(2.0))) - 6.0206).abs() < 1e-2);
}

#[test]
fn wrap_phase_is_exact_at_the_boundary() {
    assert_eq!(wrap_phase01(ONE), 0);
    assert_eq!(wrap_phase01(0), 0);
    assert_eq!(wrap_phase01(HALF), HALF);
    assert_eq!(wrap_phase01(-QUARTER), ONE - QUARTER);
    assert_eq!(wrap_phase01(3 * ONE + 7), 7);
}

#[test]
fn clamp_and_signum_and_lerp() {
    assert_eq!(clamp(q(2.0), 0, ONE), ONE);
    assert_eq!(clamp(q(-2.0), 0, ONE), 0);
    assert_eq!(clamp(HALF, 0, ONE), HALF);
    assert_eq!(signum_nonzero(0), ONE);
    assert_eq!(signum_nonzero(-1), -ONE);
    assert_eq!(lerp(0, ONE, HALF), HALF);
    assert_eq!(lerp(ONE, ONE, QUARTER), ONE);
}

#[test]
fn smoothstep_eases_between_edges() {
    assert_eq!(smoothstep(0, ONE, -ONE), 0);
    assert_eq!(smoothstep(0, ONE, 2 * ONE), ONE);
    assert_eq!(smoothstep(0, ONE, HALF), HALF);
    let low = smoothstep(0, ONE, QUARTER);
    assert!((fq(low) - 0.15625).abs() < 1e-6);
}

#[test]
fn kill_denormals_is_identity_on_fixed_point() {
    assert_eq!(kill_denormals(0), 0);
    assert_eq!(kill_denormals(1), 1);
    assert_eq!(kill_denormals(-q(0.5)), -q(0.5));
}

#[test]
fn fast_trig_stays_within_tolerance() {
    for k in -20..=20 {
        let x = (k as f64) * 0.3;
        let s = fq(fast_sin(q(x)));
        let c = fq(fast_cos(q(x)));
        assert!((s - x.sin()).abs() < 1e-3, "x={} s={} sin={}", x, s, x.sin());
        assert!((c - x.cos()).abs() < 1e-3, "x={} c={} cos={}", x, c, x.cos());
    }
}

#[test]
fn one_pole_coefficients_match_the_formulas() {
    let a = fq(one_pole_coeff_ms(q(10.0), 48000));
    assert!((a - (-1.0f64 / (0.01 * 48000.0)).exp()).abs() < 1e-4);
    assert_eq!(one_pole_coeff_ms(0, 48000), ONE);
    assert_eq!(one_pole_coeff_ms(-q(5.0), 48000), ONE);
    let b = fq(one_pole_coeff_hz(q(20.0), 48000));
    assert!((b - (-2.0 * std::f64::consts::PI * 20.0 / 48000.0).exp()).abs() < 1e-4);
    assert_eq!(one_pole_coeff_hz(-ONE, 48000), ONE);
}

#[test]
fn dc_block_kills_a_constant() {
    let mut d = DcBlock::new(one_pole_coeff_hz(q(20.0), 48000));
    let mut y = 0i64;
    for _ in 0..48000 {
        y = d.process(ONE);
    }
    assert!(fq(y).abs() < 1e-2, "y={}", fq(y));
}

#[test]
fn mix_in_place_adds_scaled_source() {
    let mut dst = vec![q(1.0), q(2.0)];
    let src = vec![q(0.5), q(0.5)];
    mix_in_place(&mut dst, &src, q(2.0));
    assert_eq!(dst, vec![q(2.0), q(3.0)]);

    let mut short = vec![q(1.0)];
    mix_in_place(&mut short, &src, q(2.0));
    assert_eq!(short, vec![q(1.0)]);

    let mut empty: Vec<i64> = Vec::new();
    let none: Vec<i64> = Vec::new();
    mix_in_place(&mut empty, &none, q(2.0));
    assert!(empty.is_empty());
}

#[test]
fn fill_sine_tracks_the_phase_accumulator() {
    let mut out = vec![0i64; 8];
    let mut phase = 0i64;
    let inc = q(std::f64::consts::PI / 4.0);
    fill_sine(&mut out, &mut phase, inc);
    for (i, v) in out.iter().enumerate() {
        // The written sample is the seventh-order odd Taylor polynomial of
        // the phase reduced into [-pi, pi].
        let p = (i as i64) * inc;
        let xr = fq((p + PI_Q).rem_euclid(TWO_PI) - PI_Q);
        let expect = xr - xr.powi(3) / 6.0 + xr.powi(5) / 120.0 - xr.powi(7) / 5040.0;
        assert!((fq(*v) - expect).abs() < 1e-5, "i={} got={} want={}", i, fq(*v), expect);
        assert!((fq(*v) - xr.sin()).abs() < 0.08, "i={} got={} sin={}", i, fq(*v), xr.sin());
    }
    // At a reduced phase of +/-pi the seventh-order Taylor tail shows its
    // characteristic boundary value of about 0.075.
    assert!(fq(out[4]).abs() > 0.07 && fq(out[4]).abs() < 0.08, "pi value={}", fq(out[4]));
    assert!(phase.abs() <= 2 * TWO_PI);
}

#[test]
fn rms_follows_a_steady_signal() {
    let mut rms = Rms::new(one_pole_coeff_ms(q(10.0), 48000));
    let mut v = 0i64;
    for _ in 0..2000 {
        v = rms.tick(HALF);
    }
    assert!((fq(v) - 0.5).abs() < 1e-3, "rms={}", fq(v));
}
