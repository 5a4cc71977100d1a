//! Oscillators: the dry sawtooth and pulse waveforms.
//!
//! Both generators produce `floor(sample_rate * duration)` samples; the
//! sample at index `i` is a pure function of the index and the
//! parameters, stated exactly by the spec twins below.  Degenerate
//! parameters (a zero or negative frequency, rate or duration) are not
//! rejected: they yield an empty or constant buffer, as the permissive
//! contract of the render boundary asks.

use vstd::prelude::*;
use vstd::arithmetic::mul::{lemma_mul_nonnegative, lemma_mul_upper_bound};
use vstd::arithmetic::div_mod::lemma_div_pos_is_pos;
use crate::fixed::{
    divc,
    divc_s,
    frac1_s,
    imax,
    imin,
    qdiv,
    qdiv_s,
    qfrac,
    qmul,
    qmul_s,
    sat64,
    sat_narrow,
    SCALE,
};

verus! {

/// The number of samples of a buffer: the whole part of
/// `sample_rate * duration`, zero when either factor is not positive,
/// capped at the address range.
pub open spec fn sample_count_s(sample_rate: int, duration: int) -> int {
    if sample_rate <= 0 || duration <= 0 {
        0
    } else {
        imin((sample_rate * duration) / ((SCALE as int) * (SCALE as int)), usize::MAX as int)
    }
}

/// The oscillator phase at sample index `i`: the fractional part of
/// `(i / sample_rate) * frequency`, by truncating fixed-point steps.
pub open spec fn phase_at_s(i: int, frequency: int, sample_rate: int) -> int {
    let t = qdiv_s(sat64(i * (SCALE as int)), sample_rate);
    frac1_s(qmul_s(t, frequency))
}

/// One sawtooth sample: the phase ramp rescaled from [0, 1) to [-1, 1).
pub open spec fn saw_sample_s(i: int, frequency: int, sample_rate: int) -> int {
    2 * phase_at_s(i, frequency, sample_rate) - (SCALE as int)
}

/// The pulse duty threshold: the duty percent clamped into [0, 100] and
/// then normalized to a phase fraction in [0, 1].
pub open spec fn duty_threshold_s(duty_percent: int) -> int {
    divc_s(imin(imax(duty_percent, 0), 100 * (SCALE as int)), 100)
}

/// One pulse sample: one unit high while the phase is under the duty
/// threshold, one unit low for the rest of the period.
pub open spec fn pulse_sample_s(i: int, frequency: int, sample_rate: int, duty_percent: int) -> int {
    if phase_at_s(i, frequency, sample_rate) < duty_threshold_s(duty_percent) {
        SCALE as int
    } else {
        -(SCALE as int)
    }
}

fn sample_count(sample_rate: i64, duration: i64) -> (n: usize)
    ensures
        n as int == sample_count_s(sample_rate as int, duration as int),
{
    if sample_rate <= 0 || duration <= 0 {
        0
    } else {
        proof {
            lemma_mul_upper_bound(
                sample_rate as int,
                0x8000_0000_0000_0000,
                duration as int,
                0x8000_0000_0000_0000,
            );
            lemma_mul_nonnegative(sample_rate as int, duration as int);
        }
        let p: u128 = (sample_rate as u128) * (duration as u128);
        let q: u128 = p / 18446744073709551616u128;
        if q > usize::MAX as u128 {
            usize::MAX
        } else {
            q as usize
        }
    }
}

fn phase_at(i: usize, frequency: i64, sample_rate: i64) -> (p: i64)
    ensures
        p as int == phase_at_s(i as int, frequency as int, sample_rate as int),
{
    proof {
        lemma_mul_upper_bound(i as int, 0xffff_ffff_ffff_ffff, SCALE as int, 0x1_0000_0000);
        lemma_mul_nonnegative(i as int, SCALE as int);
    }
    let t: i64 = qdiv(sat_narrow((i as i128) * (SCALE as i128)), sample_rate);
    qfrac(qmul(t, frequency))
}

/// Generate a sawtooth wave of `floor(sample_rate * duration)` samples,
/// each exactly the rescaled phase ramp of its index; for meaningful
/// parameters every sample lies within one unit of zero.
pub fn generate_sawtooth(frequency: i64, sample_rate: i64, duration: i64) -> (samples: Vec<i64>)
    ensures
        samples@.len() == sample_count_s(sample_rate as int, duration as int),
        forall|j: int|
            0 <= j < samples@.len() ==> samples@[j] as int == saw_sample_s(
                j,
                frequency as int,
                sample_rate as int,
            ),
        frequency >= 0 && sample_rate >= 0 ==> forall|j: int|
            0 <= j < samples@.len() ==> -(SCALE as int) <= (#[trigger] samples@[j] as int)
                < SCALE as int,
{
    let n: usize = sample_count(sample_rate, duration);
    let mut samples: Vec<i64> = Vec::new();
    let mut i: usize = 0;
    while i < n
        invariant
            i <= n,
            n as int == sample_count_s(sample_rate as int, duration as int),
            samples@.len() == i as int,
            forall|j: int|
                0 <= j < i as int ==> samples@[j] as int == saw_sample_s(
                    j,
                    frequency as int,
                    sample_rate as int,
                ),
        decreases n - i,
    {
        let p: i64 = phase_at(i, frequency, sample_rate);
        samples.push(2 * p - SCALE);
        i = i + 1;
    }
    proof {
        if frequency >= 0 && sample_rate >= 0 {
            assert forall|j: int| 0 <= j < samples@.len() implies -(SCALE as int) <= (
            #[trigger] samples@[j] as int) < SCALE as int by {
                lemma_sawtooth_in_range(j, frequency as int, sample_rate as int);
            }
        }
    }
    samples
}

/// Generate a pulse wave of `floor(sample_rate * duration)` samples,
/// high for the clamped duty fraction of each period and low otherwise;
/// every sample is exactly one unit high or one unit low, whatever the
/// duty percent.
pub fn generate_pulse(frequency: i64, sample_rate: i64, duration: i64, duty_percent: i64) -> (samples:
    Vec<i64>)
    ensures
        samples@.len() == sample_count_s(sample_rate as int, duration as int),
        forall|j: int|
            0 <= j < samples@.len() ==> samples@[j] as int == pulse_sample_s(
                j,
                frequency as int,
                sample_rate as int,
                duty_percent as int,
            ),
        forall|j: int|
            0 <= j < samples@.len() ==> samples@[j] == SCALE || samples@[j] == -SCALE,
{
    let n: usize = sample_count(sample_rate, duration);
    let duty: i64 = divc(
        if duty_percent < 0 {
            0
        } else if duty_percent > 100 * SCALE {
            100 * SCALE
        } else {
            duty_percent
        },
        100,
    );
    let mut samples: Vec<i64> = Vec::new();
    let mut i: usize = 0;
    while i < n
        invariant
            i <= n,
            n as int == sample_count_s(sample_rate as int, duration as int),
            duty as int == duty_threshold_s(duty_percent as int),
            samples@.len() == i as int,
            forall|j: int|
                0 <= j < i as int ==> samples@[j] as int == pulse_sample_s(
                    j,
                    frequency as int,
                    sample_rate as int,
                    duty_percent as int,
                ),
        decreases n - i,
    {
        let p: i64 = phase_at(i, frequency, sample_rate);
        if p < duty {
            samples.push(SCALE);
        } else {
            samples.push(-SCALE);
        }
        i = i + 1;
    }
    samples
}

/// Both oscillators produce the same buffer length for the same
/// parameters: the whole part of `sample_rate * duration`, capped at
/// the address range.
pub proof fn lemma_buffer_count(sample_rate: int, duration: int)
    requires
        sample_rate > 0,
        duration >= 0,
    ensures
        sample_count_s(sample_rate, duration) == imin(
            (sample_rate * duration) / ((SCALE as int) * (SCALE as int)),
            usize::MAX as int,
        ),
{
    if duration == 0 {
        assert(sample_rate * 0 == 0) by (nonlinear_arith);
    }
}

/// The phase of a sample is a fraction within [0, 1) whenever the
/// frequency and the sample rate are nonnegative.
pub proof fn lemma_phase_in_range(i: int, frequency: int, sample_rate: int)
    requires
        0 <= i,
        frequency >= 0,
        sample_rate >= 0,
    ensures
        0 <= phase_at_s(i, frequency, sample_rate) < SCALE as int,
{
    lemma_mul_nonnegative(i, SCALE as int);
    let a = sat64(i * (SCALE as int));
    let t = qdiv_s(a, sample_rate);
    assert(t >= 0) by {
        if sample_rate > 0 {
            lemma_mul_nonnegative(a, SCALE as int);
            lemma_div_pos_is_pos(a * (SCALE as int), sample_rate);
        }
    }
    let v = qmul_s(t, frequency);
    assert(v >= 0) by {
        lemma_mul_nonnegative(t, frequency);
        lemma_div_pos_is_pos(t * frequency, SCALE as int);
    }
}

/// Every sawtooth sample lies within one unit of zero: the ramp runs
/// from minus one toward plus one, for nonnegative frequency and
/// sample rate.
pub proof fn lemma_sawtooth_in_range(i: int, frequency: int, sample_rate: int)
    requires
        0 <= i,
        frequency >= 0,
        sample_rate >= 0,
    ensures
        -(SCALE as int) <= saw_sample_s(i, frequency, sample_rate) < SCALE as int,
{
    lemma_phase_in_range(i, frequency, sample_rate);
}

/// Every pulse sample is exactly one unit high or one unit low, for
/// every duty percent, in or out of range.
pub proof fn lemma_pulse_two_valued(i: int, frequency: int, sample_rate: int, duty_percent: int)
    ensures
        pulse_sample_s(i, frequency, sample_rate, duty_percent) == SCALE as int
            || pulse_sample_s(i, frequency, sample_rate, duty_percent) == -(SCALE as int),
{
}

} // verus!
