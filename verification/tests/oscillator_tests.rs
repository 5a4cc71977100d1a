use audio_synth::generate_pulse;
use audio_synth::generate_sawtooth;

fn q(x: f64) -> i64 {
    (x * 4294967296.0).round() as i64
}

fn fq(x: i64) -> f64 {
    (x as f64) / 4294967296.0
}

#[test]
fn oscillator_test_generate_sawtooth() {
    let samples = generate_sawtooth(q(220.0), q(44100.0), q(0.1));
    assert_eq!(samples.len(), 4410);
    // Check that samples are in range [-1, 1]
    for sample in samples.iter() {
        let s = fq(*sample);
        assert!(s >= -1.0 && s <= 1.0);
    }
}

#[test]
fn oscillator_test_generate_pulse() {
    let samples = generate_pulse(q(220.0), q(44100.0), q(0.1), q(50.0));
    assert_eq!(samples.len(), 4410);
    // Check that samples are either 1 or -1
    for sample in samples.iter() {
        let s = fq(*sample);
        assert!(s == 1.0 || s == -1.0);
    }
}

#[test]
fn oscillator_test_pulse_duty_ratio_clamping() {
    let samples_negative = generate_pulse(q(220.0), q(44100.0), q(0.01), q(-10.0));
    let samples_over = generate_pulse(q(220.0), q(44100.0), q(0.01), q(150.0));
    let samples_50 = generate_pulse(q(220.0), q(44100.0), q(0.01), q(50.0));

    // All should produce valid outputs
    assert!(samples_negative.len() > 0);
    assert!(samples_over.len() > 0);
    assert!(samples_50.len() > 0);
}

#[test]
fn lib_test_generate_sawtooth() {
    let samples = generate_sawtooth(q(220.0), q(44100.0), q(0.1));
    assert_eq!(samples.len(), 4410);
    for sample in samples.iter() {
        let s = fq(*sample);
        assert!(s >= -1.0 && s <= 1.0);
    }
}

#[test]
fn lib_test_generate_pulse() {
    let samples = generate_pulse(q(220.0), q(44100.0), q(0.1), q(50.0));
    assert_eq!(samples.len(), 4410);
    for sample in samples.iter() {
        let s = fq(*sample);
        assert!(s == 1.0 || s == -1.0);
    }
}

#[test]
fn lib_test_pulse_duty_ratio_clamping() {
    let samples_negative = generate_pulse(q(220.0), q(44100.0), q(0.01), q(-10.0));
    let samples_over = generate_pulse(q(220.0), q(44100.0), q(0.01), q(150.0));
    let samples_50 = generate_pulse(q(220.0), q(44100.0), q(0.01), q(50.0));

    assert!(samples_negative.len() > 0);
    assert!(samples_over.len() > 0);
    assert!(samples_50.len() > 0);
}

#[test]
fn test_sawtooth_and_pulse_lengths_agree() {
    // Both oscillators produce floor(sample_rate * duration) samples.
    let saw = generate_sawtooth(q(220.0), q(44100.0), q(0.25));
    let pulse = generate_pulse(q(220.0), q(44100.0), q(0.25), q(50.0));
    assert_eq!(saw.len(), 11025);
    assert_eq!(saw.len(), pulse.len());
}

#[test]
fn test_zero_duration_gives_empty_buffers() {
    assert_eq!(generate_sawtooth(q(220.0), q(44100.0), q(0.0)).len(), 0);
    assert_eq!(generate_pulse(q(220.0), q(44100.0), q(0.0), q(50.0)).len(), 0);
}

#[test]
fn test_sawtooth_exact_ramp_values() {
    // One cycle over ten samples: the phase at sample i is exactly i/10.
    let samples = generate_sawtooth(q(1.0), q(10.0), q(1.0));
    assert_eq!(samples.len(), 10);
    assert_eq!(fq(samples[0]), -1.0);
    assert_eq!(fq(samples[5]), 0.0);
}

#[test]
fn test_pulse_extreme_duty_is_constant() {
    // A duty at or past 100 percent keeps the pulse high for the whole
    // period; at or under 0 percent, low for the whole period.
    let high = generate_pulse(q(50.0), q(1000.0), q(0.05), q(150.0));
    let low = generate_pulse(q(50.0), q(1000.0), q(0.05), q(-10.0));
    assert_eq!(high.len(), 50);
    for s in high.iter() {
        assert_eq!(fq(*s), 1.0);
    }
    for s in low.iter() {
        assert_eq!(fq(*s), -1.0);
    }
}
