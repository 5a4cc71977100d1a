//! The render pipeline: one call per note.
//!
//! The pipeline generates the dry waveform up front, then streams it
//! sample by sample through one biquad filter whose coefficients are
//! refreshed on a fixed cadence of roughly one millisecond of audio,
//! following a cutoff-decay schedule in hertz or in cents.  The exact
//! output is pinned by `rendered_buffer_s`: a fold of the filter
//! recurrence over the dry buffer, with a coefficient update at every
//! index divisible by the update stride.

use vstd::prelude::*;
use vstd::arithmetic::mul::{lemma_mul_nonnegative, lemma_mul_upper_bound};
use crate::fixed::{imax, imin, qdiv, qdiv_s, qmul, qmul_s, sat64, sat_narrow, SCALE};
use crate::filter::{
    stepped_s,
    step_out_s,
    topology_of,
    topology_from_name,
    with_coefficients_s,
    BiquadFilter,
    FilterTopology,
};
use crate::math::{exp2_q, exp2_s, log2_q, log2_s};
use crate::fixed::{divc, divc_s};
use crate::oscillator::{
    generate_pulse,
    generate_sawtooth,
    pulse_sample_s,
    sample_count_s,
    saw_sample_s,
};
use crate::text::str_eq;

verus! {

/// The parameters one render call drives the filter with.
pub struct RenderParams {
    pub topology: FilterTopology,
    pub hz_decay: bool,
    pub initial_cutoff: i64,
    pub q: i64,
    pub decay_rate: i64,
    pub sample_rate: i64,
}

/// The coefficient-update stride: one update per millisecond of audio,
/// never less than one sample.
pub open spec fn samples_per_update_s(sample_rate: int) -> int {
    imax(1, sample_rate / (1000 * (SCALE as int)))
}

/// The elapsed milliseconds at sample index `i`:
/// `(i / sample_rate) * 1000`.
pub open spec fn time_ms_s(i: int, sample_rate: int) -> int {
    qmul_s(qdiv_s(sat64(i * (SCALE as int)), sample_rate), 1000 * (SCALE as int))
}

/// Linear hertz decay: `initial - time_ms * rate`, floored at one
/// hertz.
pub open spec fn hz_cutoff_s(initial: int, time_ms: int, rate: int) -> int {
    imax(SCALE as int, sat64(initial - qmul_s(time_ms, rate)))
}

/// Exponential cent decay: the elapsed cents are capped at the cents
/// between the initial cutoff and one hertz, so the ratio can never
/// carry the cutoff below one hertz; an initial cutoff already under
/// one hertz goes there directly.
pub open spec fn cent_cutoff_s(initial: int, time_ms: int, rate: int) -> int {
    if initial < SCALE as int {
        SCALE as int
    } else {
        let max_cents = sat64(1200 * log2_s(initial));
        let total = imin(qmul_s(time_ms, rate), max_cents);
        let ratio = exp2_s(divc_s(sat64(-total), 1200));
        imax(SCALE as int, qmul_s(initial, ratio))
    }
}

/// The decay schedule's cutoff at sample index `i`.
pub open spec fn cutoff_at_s(p: RenderParams, i: int) -> int {
    let tms = time_ms_s(i, p.sample_rate as int);
    if p.hz_decay {
        hz_cutoff_s(p.initial_cutoff as int, tms, p.decay_rate as int)
    } else {
        cent_cutoff_s(p.initial_cutoff as int, tms, p.decay_rate as int)
    }
}

/// A fresh filter as the pipeline constructs it.
pub open spec fn fresh_filter_s(sample_rate: i64) -> BiquadFilter {
    BiquadFilter {
        a0: 0,
        a1: 0,
        a2: 0,
        b1: 0,
        b2: 0,
        x1: 0,
        x2: 0,
        y1: 0,
        y2: 0,
        sample_rate: sample_rate,
    }
}

/// The filter as sample `i` sees it: refreshed from the decay schedule
/// at every index divisible by the update stride, untouched between
/// updates.
pub open spec fn updated_filter_s(p: RenderParams, f: BiquadFilter, i: int) -> BiquadFilter {
    if i % samples_per_update_s(p.sample_rate as int) == 0 {
        with_coefficients_s(f, p.topology, cutoff_at_s(p, i), p.q as int)
    } else {
        f
    }
}

/// The filter state after the first `n` samples of the dry buffer have
/// been processed.
pub open spec fn filter_after_s(p: RenderParams, dry: Seq<i64>, n: int) -> BiquadFilter
    decreases n,
{
    if n <= 0 {
        fresh_filter_s(p.sample_rate)
    } else {
        stepped_s(updated_filter_s(p, filter_after_s(p, dry, n - 1), n - 1), dry[n - 1])
    }
}

/// The output sample at index `i`.
pub open spec fn rendered_sample_s(p: RenderParams, dry: Seq<i64>, i: int) -> i64 {
    step_out_s(updated_filter_s(p, filter_after_s(p, dry, i), i), dry[i])
}

/// The whole rendered buffer: one output per dry sample.
pub open spec fn rendered_buffer_s(p: RenderParams, dry: Seq<i64>) -> Seq<i64> {
    Seq::new(dry.len(), |i: int| rendered_sample_s(p, dry, i))
}

/// One dry sample of the selected waveform.
pub open spec fn dry_sample_s(
    pulse: bool,
    i: int,
    frequency: int,
    sample_rate: int,
    duty: int,
) -> i64 {
    if pulse {
        pulse_sample_s(i, frequency, sample_rate, duty) as i64
    } else {
        saw_sample_s(i, frequency, sample_rate) as i64
    }
}

/// The dry buffer of the selected waveform.
pub open spec fn dry_buffer_s(
    pulse: bool,
    frequency: int,
    sample_rate: int,
    duration: int,
    duty: int,
) -> Seq<i64> {
    Seq::new(
        sample_count_s(sample_rate, duration) as nat,
        |i: int| dry_sample_s(pulse, i, frequency, sample_rate, duty),
    )
}

/// The parameter record the string selectors denote.
pub open spec fn render_params_s(
    filter_type: Seq<char>,
    decay_unit: Seq<char>,
    initial_cutoff: i64,
    q: i64,
    decay_rate: i64,
    sample_rate: i64,
) -> RenderParams {
    RenderParams {
        topology: topology_of(filter_type),
        hz_decay: decay_unit == "Hz"@,
        initial_cutoff: initial_cutoff,
        q: q,
        decay_rate: decay_rate,
        sample_rate: sample_rate,
    }
}

fn samples_per_update(sample_rate: i64) -> (n: usize)
    ensures
        n as int == samples_per_update_s(sample_rate as int),
        n >= 1,
{
    if sample_rate <= 0 {
        1
    } else {
        let q: u64 = (sample_rate as u64) / 4294967296000u64;
        if q < 1 {
            1
        } else {
            q as usize
        }
    }
}

fn time_ms(i: usize, sample_rate: i64) -> (t: i64)
    ensures
        t as int == time_ms_s(i as int, sample_rate as int),
{
    proof {
        lemma_mul_upper_bound(i as int, 0xffff_ffff_ffff_ffff, SCALE as int, 0x1_0000_0000);
        lemma_mul_nonnegative(i as int, SCALE as int);
    }
    let tq: i64 = qdiv(sat_narrow((i as i128) * (SCALE as i128)), sample_rate);
    qmul(tq, 1000 * SCALE)
}

fn hz_cutoff(initial: i64, tms: i64, rate: i64) -> (c: i64)
    ensures
        c as int == hz_cutoff_s(initial as int, tms as int, rate as int),
        c >= SCALE,
{
    let d: i64 = qmul(tms, rate);
    let cut: i64 = sat_narrow(initial as i128 - d as i128);
    if cut < SCALE {
        SCALE
    } else {
        cut
    }
}

fn cent_cutoff(initial: i64, tms: i64, rate: i64) -> (c: i64)
    ensures
        c as int == cent_cutoff_s(initial as int, tms as int, rate as int),
        c >= SCALE,
{
    if initial < SCALE {
        SCALE
    } else {
        let max_cents: i64 = sat_narrow(1200 * (log2_q(initial) as i128));
        let d: i64 = qmul(tms, rate);
        let total: i64 = if d < max_cents {
            d
        } else {
            max_cents
        };
        let e: i64 = divc(sat_narrow(-(total as i128)), 1200);
        let ratio: i64 = exp2_q(e);
        let cut: i64 = qmul(initial, ratio);
        if cut < SCALE {
            SCALE
        } else {
            cut
        }
    }
}

/// Render one note: generate the selected waveform, then stream it
/// through one filter whose cutoff follows the decay schedule, with a
/// coefficient refresh roughly every millisecond of audio.  The output
/// has exactly one sample per dry sample, each pinned by
/// `rendered_buffer_s`.
pub fn render_audio(
    waveform_type: &str,
    frequency: i64,
    sample_rate: i64,
    duration: i64,
    duty_ratio: i64,
    filter_type: &str,
    initial_cutoff: i64,
    q: i64,
    decay_unit: &str,
    decay_rate: i64,
) -> (output: Vec<i64>)
    ensures
        output@.len() == sample_count_s(sample_rate as int, duration as int),
        output@ == rendered_buffer_s(
            render_params_s(
                filter_type@,
                decay_unit@,
                initial_cutoff,
                q,
                decay_rate,
                sample_rate,
            ),
            dry_buffer_s(
                waveform_type@ == "pulse"@,
                frequency as int,
                sample_rate as int,
                duration as int,
                duty_ratio as int,
            ),
        ),
{
    let is_pulse: bool = str_eq(waveform_type, "pulse");
    let samples: Vec<i64> = if is_pulse {
        generate_pulse(frequency, sample_rate, duration, duty_ratio)
    } else {
        generate_sawtooth(frequency, sample_rate, duration)
    };
    proof {
        assert(samples@ =~= dry_buffer_s(
            waveform_type@ == "pulse"@,
            frequency as int,
            sample_rate as int,
            duration as int,
            duty_ratio as int,
        ));
    }
    let ghost p: RenderParams = render_params_s(
        filter_type@,
        decay_unit@,
        initial_cutoff,
        q,
        decay_rate,
        sample_rate,
    );
    let n: usize = samples.len();
    let mut output: Vec<i64> = Vec::new();
    let mut filter: BiquadFilter = BiquadFilter::new(sample_rate);
    let spu: usize = samples_per_update(sample_rate);
    let topology: FilterTopology = topology_from_name(filter_type);
    let hz: bool = str_eq(decay_unit, "Hz");
    let mut i: usize = 0;
    while i < n
        invariant
            i <= n,
            n == samples@.len(),
            output@.len() == i as int,
            spu as int == samples_per_update_s(sample_rate as int),
            topology == p.topology,
            hz == p.hz_decay,
            p == (RenderParams {
                topology: p.topology,
                hz_decay: p.hz_decay,
                initial_cutoff: initial_cutoff,
                q: q,
                decay_rate: decay_rate,
                sample_rate: sample_rate,
            }),
            filter == filter_after_s(p, samples@, i as int),
            forall|j: int|
                0 <= j < i as int ==> output@[j] == rendered_sample_s(p, samples@, j),
        decreases n - i,
    {
        if i % spu == 0 {
            let tms: i64 = time_ms(i, sample_rate);
            let cut: i64 = if hz {
                hz_cutoff(initial_cutoff, tms, decay_rate)
            } else {
                cent_cutoff(initial_cutoff, tms, decay_rate)
            };
            proof {
                assert(cut as int == cutoff_at_s(p, i as int));
            }
            filter.set_topology_coefficients(topology, cut, q);
        }
        let x: i64 = samples[i];
        let y: i64 = filter.process_sample(x);
        proof {
            assert(filter == filter_after_s(p, samples@, i as int + 1));
            assert(y == rendered_sample_s(p, samples@, i as int));
        }
        output.push(y);
        i = i + 1;
    }
    proof {
        assert(output@ =~= rendered_buffer_s(p, samples@));
    }
    output
}

/// The render output always has exactly the dry buffer's length.
pub proof fn lemma_render_preserves_length(p: RenderParams, dry: Seq<i64>)
    ensures
        rendered_buffer_s(p, dry).len() == dry.len(),
{
}

/// The decay schedule never hands the filter a cutoff under one hertz,
/// at any sample index, for either decay unit and any rate: the hertz
/// branch is floored there, and the cent branch caps the elapsed cents
/// at the distance to one hertz.
pub proof fn lemma_decay_cutoff_floor(p: RenderParams, i: int)
    ensures
        cutoff_at_s(p, i) >= SCALE as int,
{
}

} // verus!
