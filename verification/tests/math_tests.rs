use audio_synth::math::cos_q;
use audio_synth::math::exp2_q;
use audio_synth::math::log2_q;
use audio_synth::math::sin_q;
use audio_synth::math::sqrt_q;

fn q(x: f64) -> i64 {
    (x * 4294967296.0).round() as i64
}

fn fq(x: i64) -> f64 {
    (x as f64) / 4294967296.0
}

#[test]
fn test_sin_cos_exact_at_zero() {
    assert_eq!(fq(sin_q(0)), 0.0);
    assert_eq!(fq(cos_q(0)), 1.0);
}

#[test]
fn test_sin_cos_accurate_on_filter_range() {
    // The clamped cutoff keeps angles within [0, 4*pi/5]; over that
    // range the Taylor kernels match the reference to well under a
    // millionth.
    let mut a = 0.0;
    while a < 2.51 {
        assert!((fq(sin_q(q(a))) - a.sin()).abs() < 1e-6);
        assert!((fq(cos_q(q(a))) - a.cos()).abs() < 1e-6);
        a += 0.1;
    }
}

#[test]
fn test_sqrt_exact_on_squares() {
    assert_eq!(fq(sqrt_q(q(4.0))), 2.0);
    assert_eq!(fq(sqrt_q(q(1.0))), 1.0);
    assert_eq!(fq(sqrt_q(q(0.25))), 0.5);
    assert_eq!(fq(sqrt_q(0)), 0.0);
    assert_eq!(fq(sqrt_q(q(-9.0))), 0.0);
}

#[test]
fn test_log2_exact_on_powers_of_two() {
    assert_eq!(fq(log2_q(q(1.0))), 0.0);
    assert_eq!(fq(log2_q(q(8.0))), 3.0);
    assert_eq!(fq(log2_q(q(1024.0))), 10.0);
}

#[test]
fn test_exp2_exact_on_whole_octaves() {
    assert_eq!(fq(exp2_q(q(0.0))), 1.0);
    assert_eq!(fq(exp2_q(q(-1.0))), 0.5);
    assert_eq!(fq(exp2_q(q(-3.0))), 0.125);
}

#[test]
fn test_exp2_log2_round_trip() {
    // 2^(log2 x) comes back to x within fixed-point tolerance.
    for x in [1.5, 3.0, 440.0, 12345.0] {
        let back = fq(exp2_q(log2_q(q(x))));
        assert!((back - x).abs() / x < 1e-6);
    }
}
