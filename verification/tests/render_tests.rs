use audio_synth::render_audio;
use audio_synth::generate_sawtooth;

fn q(x: f64) -> i64 {
    (x * 4294967296.0).round() as i64
}

fn fq(x: i64) -> f64 {
    (x as f64) / 4294967296.0
}

#[test]
fn audio_renderer_test_render_audio_with_hz_decay() {
    let result = render_audio(
        "sawtooth",
        q(220.0),
        q(44100.0),
        q(0.1),
        q(50.0),
        "lpf",
        q(1000.0),
        q(1.0),
        "Hz",
        q(10.0),
    );

    // Should have correct number of samples
    assert_eq!(result.len(), 4410);

    // All samples should be finite
    for sample in result.iter() {
        assert!(fq(*sample).is_finite());
    }
}

#[test]
fn audio_renderer_test_render_audio_with_cent_decay() {
    let result = render_audio(
        "pulse",
        q(220.0),
        q(44100.0),
        q(0.1),
        q(25.0),
        "lpf",
        q(2000.0),
        q(2.0),
        "Cent",
        q(100.0),
    );

    assert_eq!(result.len(), 4410);
    for sample in result.iter() {
        assert!(fq(*sample).is_finite());
    }
}

#[test]
fn audio_renderer_test_filter_types_hpf() {
    let result = render_audio(
        "sawtooth",
        q(220.0),
        q(44100.0),
        q(0.1),
        q(50.0),
        "hpf",
        q(1000.0),
        q(1.0),
        "Hz",
        q(10.0),
    );

    assert_eq!(result.len(), 4410);
    for sample in result.iter() {
        assert!(fq(*sample).is_finite());
    }
}

#[test]
fn audio_renderer_test_filter_types_bpf() {
    let result = render_audio(
        "sawtooth",
        q(220.0),
        q(44100.0),
        q(0.1),
        q(50.0),
        "bpf",
        q(1000.0),
        q(2.0),
        "Hz",
        q(10.0),
    );

    assert_eq!(result.len(), 4410);
    for sample in result.iter() {
        assert!(fq(*sample).is_finite());
    }
}

#[test]
fn audio_renderer_test_filter_types_notch() {
    let result = render_audio(
        "sawtooth",
        q(220.0),
        q(44100.0),
        q(0.1),
        q(50.0),
        "notch",
        q(1000.0),
        q(4.0),
        "Hz",
        q(10.0),
    );

    assert_eq!(result.len(), 4410);
    for sample in result.iter() {
        assert!(fq(*sample).is_finite());
    }
}

#[test]
fn audio_renderer_test_filter_types_apf() {
    let result = render_audio(
        "sawtooth",
        q(220.0),
        q(44100.0),
        q(0.1),
        q(50.0),
        "apf",
        q(1000.0),
        q(1.0),
        "Hz",
        q(10.0),
    );

    assert_eq!(result.len(), 4410);
    for sample in result.iter() {
        assert!(fq(*sample).is_finite());
    }
}

#[test]
fn audio_renderer_test_filter_types_lowshelf() {
    let result = render_audio(
        "sawtooth",
        q(220.0),
        q(44100.0),
        q(0.1),
        q(50.0),
        "lowshelf",
        q(1000.0),
        q(1.0),
        "Hz",
        q(10.0),
    );

    assert_eq!(result.len(), 4410);
    for sample in result.iter() {
        assert!(fq(*sample).is_finite());
    }
}

#[test]
fn audio_renderer_test_filter_types_highshelf() {
    let result = render_audio(
        "sawtooth",
        q(220.0),
        q(44100.0),
        q(0.1),
        q(50.0),
        "highshelf",
        q(1000.0),
        q(1.0),
        "Hz",
        q(10.0),
    );

    assert_eq!(result.len(), 4410);
    for sample in result.iter() {
        assert!(fq(*sample).is_finite());
    }
}

#[test]
fn lib_test_render_audio_with_hz_decay() {
    let result = render_audio(
        "sawtooth",
        q(220.0),
        q(44100.0),
        q(0.1),
        q(50.0),
        "lpf",
        q(1000.0),
        q(1.0),
        "Hz",
        q(10.0),
    );

    assert_eq!(result.len(), 4410);
    for sample in result.iter() {
        assert!(fq(*sample).is_finite());
    }
}

#[test]
fn lib_test_render_audio_with_cent_decay() {
    let result = render_audio(
        "pulse",
        q(220.0),
        q(44100.0),
        q(0.1),
        q(25.0),
        "lpf",
        q(2000.0),
        q(2.0),
        "Cent",
        q(100.0),
    );

    assert_eq!(result.len(), 4410);
    for sample in result.iter() {
        assert!(fq(*sample).is_finite());
    }
}

#[test]
fn lib_test_filter_types_hpf() {
    let result = render_audio(
        "sawtooth",
        q(220.0),
        q(44100.0),
        q(0.1),
        q(50.0),
        "hpf",
        q(1000.0),
        q(1.0),
        "Hz",
        q(10.0),
    );

    assert_eq!(result.len(), 4410);
    for sample in result.iter() {
        assert!(fq(*sample).is_finite());
    }
}

#[test]
fn lib_test_filter_types_bpf() {
    let result = render_audio(
        "sawtooth",
        q(220.0),
        q(44100.0),
        q(0.1),
        q(50.0),
        "bpf",
        q(1000.0),
        q(2.0),
        "Hz",
        q(10.0),
    );

    assert_eq!(result.len(), 4410);
    for sample in result.iter() {
        assert!(fq(*sample).is_finite());
    }
}

#[test]
fn lib_test_filter_types_notch() {
    let result = render_audio(
        "sawtooth",
        q(220.0),
        q(44100.0),
        q(0.1),
        q(50.0),
        "notch",
        q(1000.0),
        q(4.0),
        "Hz",
        q(10.0),
    );

    assert_eq!(result.len(), 4410);
    for sample in result.iter() {
        assert!(fq(*sample).is_finite());
    }
}

#[test]
fn lib_test_filter_types_apf() {
    let result = render_audio(
        "sawtooth",
        q(220.0),
        q(44100.0),
        q(0.1),
        q(50.0),
        "apf",
        q(1000.0),
        q(1.0),
        "Hz",
        q(10.0),
    );

    assert_eq!(result.len(), 4410);
    for sample in result.iter() {
        assert!(fq(*sample).is_finite());
    }
}

#[test]
fn lib_test_filter_types_lowshelf() {
    let result = render_audio(
        "sawtooth",
        q(220.0),
        q(44100.0),
        q(0.1),
        q(50.0),
        "lowshelf",
        q(1000.0),
        q(1.0),
        "Hz",
        q(10.0),
    );

    assert_eq!(result.len(), 4410);
    for sample in result.iter() {
        assert!(fq(*sample).is_finite());
    }
}

#[test]
fn lib_test_filter_types_highshelf() {
    let result = render_audio(
        "sawtooth",
        q(220.0),
        q(44100.0),
        q(0.1),
        q(50.0),
        "highshelf",
        q(1000.0),
        q(1.0),
        "Hz",
        q(10.0),
    );

    assert_eq!(result.len(), 4410);
    for sample in result.iter() {
        assert!(fq(*sample).is_finite());
    }
}

#[test]
fn test_render_length_matches_dry_waveform() {
    // The output always has one sample per dry sample.
    let dry = generate_sawtooth(q(220.0), q(22050.0), q(0.25));
    let wet = render_audio(
        "sawtooth",
        q(220.0),
        q(22050.0),
        q(0.25),
        q(50.0),
        "lpf",
        q(1000.0),
        q(1.0),
        "Hz",
        q(10.0),
    );
    assert_eq!(dry.len(), 5512);
    assert_eq!(wet.len(), dry.len());
}

#[test]
fn test_unknown_waveform_falls_back_to_sawtooth() {
    let fallback = render_audio(
        "zzz",
        q(220.0),
        q(44100.0),
        q(0.05),
        q(50.0),
        "lpf",
        q(1000.0),
        q(1.0),
        "Hz",
        q(10.0),
    );
    let saw = render_audio(
        "sawtooth",
        q(220.0),
        q(44100.0),
        q(0.05),
        q(50.0),
        "lpf",
        q(1000.0),
        q(1.0),
        "Hz",
        q(10.0),
    );
    assert_eq!(fallback, saw);
}

#[test]
fn test_cent_decay_extreme_rate_stays_tame() {
    // However fast the cent decay runs, the cutoff bottoms out at one
    // hertz and the output stays well-defined.
    let result = render_audio(
        "pulse",
        q(220.0),
        q(44100.0),
        q(0.1),
        q(50.0),
        "lpf",
        q(2000.0),
        q(1.0),
        "Cent",
        q(1000000.0),
    );
    assert_eq!(result.len(), 4410);
    for sample in result.iter() {
        assert!(fq(*sample).is_finite());
    }
}

#[test]
fn test_zero_duration_renders_empty() {
    let result = render_audio(
        "sawtooth",
        q(220.0),
        q(44100.0),
        q(0.0),
        q(50.0),
        "lpf",
        q(1000.0),
        q(1.0),
        "Hz",
        q(10.0),
    );
    assert_eq!(result.len(), 0);
}
