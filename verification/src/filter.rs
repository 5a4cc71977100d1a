//! The biquad filter: a stateful second-order recursive filter with
//! hot-swappable coefficients, derived from the standard audio-EQ
//! cookbook formulas in Q31.32 fixed point.
//!
//! `set_coefficients` clamps the requested cutoff into
//! `[1, sample_rate / 2.5]` before deriving coefficients, so the angular
//! frequency handed to the trigonometric kernels stays inside their
//! accurate range.  The shelf topologies use a fixed unity gain: their
//! quality parameter shapes the shelf slope while the shelf itself
//! neither boosts nor cuts, which is the documented behaviour of this
//! design rather than an omission to repair.

use vstd::prelude::*;
use crate::fixed::{
    divc,
    divc_s,
    imax,
    imin,
    qdiv,
    qdiv_s,
    qmul,
    qmul_s,
    sat64,
    sat_narrow,
    SCALE,
};
use crate::math::{cos_q, cos_s, sin_q, sin_s, sqrt_q, sqrt_q_s};
use crate::text::str_eq;

verus! {

/// Two pi in Q31.32 units.
pub const TWO_PI: i64 = 26986075409;

/// The seven filter shapes the coefficient table covers.  A selector
/// string that matches none of their tokens falls back to `LowPass`,
/// the documented default.
#[derive(Clone, Copy)]
pub enum FilterTopology {
    LowPass,
    HighPass,
    BandPass,
    Notch,
    AllPass,
    LowShelf,
    HighShelf,
}

/// The topology a selector string names.
pub open spec fn topology_of(name: Seq<char>) -> FilterTopology {
    if name == "lpf"@ {
        FilterTopology::LowPass
    } else if name == "hpf"@ {
        FilterTopology::HighPass
    } else if name == "bpf"@ {
        FilterTopology::BandPass
    } else if name == "notch"@ {
        FilterTopology::Notch
    } else if name == "apf"@ {
        FilterTopology::AllPass
    } else if name == "lowshelf"@ {
        FilterTopology::LowShelf
    } else if name == "highshelf"@ {
        FilterTopology::HighShelf
    } else {
        FilterTopology::LowPass
    }
}

/// Parse a topology selector, falling back to the low-pass default.
pub fn topology_from_name(name: &str) -> (t: FilterTopology)
    ensures
        t == topology_of(name@),
{
    if str_eq(name, "lpf") {
        FilterTopology::LowPass
    } else if str_eq(name, "hpf") {
        FilterTopology::HighPass
    } else if str_eq(name, "bpf") {
        FilterTopology::BandPass
    } else if str_eq(name, "notch") {
        FilterTopology::Notch
    } else if str_eq(name, "apf") {
        FilterTopology::AllPass
    } else if str_eq(name, "lowshelf") {
        FilterTopology::LowShelf
    } else if str_eq(name, "highshelf") {
        FilterTopology::HighShelf
    } else {
        FilterTopology::LowPass
    }
}

/// A second-order recursive filter: five normalized coefficients, four
/// history cells and the sample rate it was built for.  The stored
/// `a0..a2` are the normalized feed-forward coefficients and `b1..b2`
/// the normalized feedback coefficients, keeping the naming of the
/// recurrence below.
pub struct BiquadFilter {
    pub a0: i64,
    pub a1: i64,
    pub a2: i64,
    pub b1: i64,
    pub b2: i64,
    pub x1: i64,
    pub x2: i64,
    pub y1: i64,
    pub y2: i64,
    pub sample_rate: i64,
}

/// An unnormalized coefficient set, before division by its `a0`.
pub struct RawCoeffs {
    pub b0: int,
    pub b1: int,
    pub b2: int,
    pub a0: int,
    pub a1: int,
    pub a2: int,
}

/// The upper cutoff bound: `sample_rate / 2.5`, kept well under the
/// Nyquist frequency for numerical stability.
pub open spec fn nyquist_limit_s(sample_rate: int) -> int {
    divc_s(sat64(2 * sample_rate), 5)
}

/// The cutoff actually used: raised to one unit (one hertz), then
/// lowered to the Nyquist bound, in that order.
pub open spec fn clamp_cutoff_s(cutoff: int, sample_rate: int) -> int {
    imin(imax(cutoff, SCALE as int), nyquist_limit_s(sample_rate))
}

/// The angular frequency of the clamped cutoff:
/// `2 * pi * cutoff / sample_rate` radians per sample.
pub open spec fn omega_s(cutoff: int, sample_rate: int) -> int {
    qdiv_s(qmul_s(TWO_PI as int, clamp_cutoff_s(cutoff, sample_rate)), sample_rate)
}

/// The resonance width term: `sin(omega) / (2 * q)`.
pub open spec fn alpha_s(sin_omega: int, q: int) -> int {
    qdiv_s(sin_omega, sat64(2 * q))
}

/// The shelf slope term `sqrt(gain) * sqrt(2 * alpha)`.
pub open spec fn beta_s(gain: int, alpha: int) -> int {
    qmul_s(sqrt_q_s(gain), sqrt_q_s(sat64(2 * alpha)))
}

/// The unnormalized audio-EQ-cookbook coefficients of one topology, as
/// a function of the cosine of the angular frequency and of the
/// resonance term.
pub open spec fn raw_coeffs_s(t: FilterTopology, cos_omega: int, alpha: int) -> RawCoeffs {
    let s = SCALE as int;
    match t {
        FilterTopology::LowPass => RawCoeffs {
            b0: divc_s(s - cos_omega, 2),
            b1: s - cos_omega,
            b2: divc_s(s - cos_omega, 2),
            a0: sat64(s + alpha),
            a1: -2 * cos_omega,
            a2: sat64(s - alpha),
        },
        FilterTopology::HighPass => RawCoeffs {
            b0: divc_s(s + cos_omega, 2),
            b1: -(s + cos_omega),
            b2: divc_s(s + cos_omega, 2),
            a0: sat64(s + alpha),
            a1: -2 * cos_omega,
            a2: sat64(s - alpha),
        },
        FilterTopology::BandPass => RawCoeffs {
            b0: alpha,
            b1: 0,
            b2: sat64(-alpha),
            a0: sat64(s + alpha),
            a1: -2 * cos_omega,
            a2: sat64(s - alpha),
        },
        FilterTopology::Notch => RawCoeffs {
            b0: s,
            b1: -2 * cos_omega,
            b2: s,
            a0: sat64(s + alpha),
            a1: -2 * cos_omega,
            a2: sat64(s - alpha),
        },
        FilterTopology::AllPass => RawCoeffs {
            b0: sat64(s - alpha),
            b1: -2 * cos_omega,
            b2: sat64(s + alpha),
            a0: sat64(s + alpha),
            a1: -2 * cos_omega,
            a2: sat64(s - alpha),
        },
        FilterTopology::LowShelf => {
            let gain = s;
            let beta = beta_s(gain, alpha);
            let ap1 = gain + s;
            let am1 = gain - s;
            let am1_cos = qmul_s(am1, cos_omega);
            let ap1_cos = qmul_s(ap1, cos_omega);
            RawCoeffs {
                b0: qmul_s(gain, sat64(ap1 - am1_cos + beta)),
                b1: qmul_s(2 * gain, sat64(am1 - ap1_cos)),
                b2: qmul_s(gain, sat64(ap1 - am1_cos - beta)),
                a0: sat64(ap1 + am1_cos + beta),
                a1: sat64(-2 * sat64(am1 + ap1_cos)),
                a2: sat64(ap1 + am1_cos - beta),
            }
        },
        FilterTopology::HighShelf => {
            let gain = s;
            let beta = beta_s(gain, alpha);
            let ap1 = gain + s;
            let am1 = gain - s;
            let am1_cos = qmul_s(am1, cos_omega);
            let ap1_cos = qmul_s(ap1, cos_omega);
            RawCoeffs {
                b0: qmul_s(gain, sat64(ap1 + am1_cos + beta)),
                b1: qmul_s(-2 * gain, sat64(am1 + ap1_cos)),
                b2: qmul_s(gain, sat64(ap1 + am1_cos - beta)),
                a0: sat64(ap1 - am1_cos + beta),
                a1: sat64(2 * sat64(am1 - ap1_cos)),
                a2: sat64(ap1 - am1_cos - beta),
            }
        },
    }
}

/// The filter after a coefficient update: history and sample rate kept,
/// the five stored coefficients replaced by the normalized cookbook set
/// of the clamped cutoff.
pub open spec fn with_coefficients_s(
    f: BiquadFilter,
    t: FilterTopology,
    cutoff: int,
    q: int,
) -> BiquadFilter {
    let omega = omega_s(cutoff, f.sample_rate as int);
    let sin_omega = sin_s(omega);
    let cos_omega = cos_s(omega);
    let alpha = alpha_s(sin_omega, q);
    let rc = raw_coeffs_s(t, cos_omega, alpha);
    BiquadFilter {
        a0: qdiv_s(rc.b0, rc.a0) as i64,
        a1: qdiv_s(rc.b1, rc.a0) as i64,
        a2: qdiv_s(rc.b2, rc.a0) as i64,
        b1: qdiv_s(rc.a1, rc.a0) as i64,
        b2: qdiv_s(rc.a2, rc.a0) as i64,
        x1: f.x1,
        x2: f.x2,
        y1: f.y1,
        y2: f.y2,
        sample_rate: f.sample_rate,
    }
}

/// One output of the recurrence:
/// `a0*x + a1*x1 + a2*x2 - b1*y1 - b2*y2`, saturated.
pub open spec fn step_out_s(f: BiquadFilter, input: i64) -> i64 {
    sat64(
        qmul_s(f.a0 as int, input as int) + qmul_s(f.a1 as int, f.x1 as int) + qmul_s(
            f.a2 as int,
            f.x2 as int,
        ) - qmul_s(f.b1 as int, f.y1 as int) - qmul_s(f.b2 as int, f.y2 as int),
    ) as i64
}

/// The filter after processing one sample: the output becomes the
/// newest output history, the input the newest input history.
pub open spec fn stepped_s(f: BiquadFilter, input: i64) -> BiquadFilter {
    BiquadFilter {
        a0: f.a0,
        a1: f.a1,
        a2: f.a2,
        b1: f.b1,
        b2: f.b2,
        x1: input,
        x2: f.x1,
        y1: step_out_s(f, input),
        y2: f.y1,
        sample_rate: f.sample_rate,
    }
}

impl BiquadFilter {
    /// A fresh filter: all coefficients and history zero, so it emits
    /// silence until `set_coefficients` first runs.
    pub fn new(sample_rate: i64) -> (f: BiquadFilter)
        ensures
            f.a0 == 0 && f.a1 == 0 && f.a2 == 0 && f.b1 == 0 && f.b2 == 0,
            f.x1 == 0 && f.x2 == 0 && f.y1 == 0 && f.y2 == 0,
            f.sample_rate == sample_rate,
    {
        BiquadFilter {
            a0: 0,
            a1: 0,
            a2: 0,
            b1: 0,
            b2: 0,
            x1: 0,
            x2: 0,
            y1: 0,
            y2: 0,
            sample_rate,
        }
    }

    /// Derive and store normalized coefficients for a selector string:
    /// `"lpf"`, `"hpf"`, `"bpf"`, `"notch"`, `"apf"`, `"lowshelf"` or
    /// `"highshelf"`; any other string selects the low-pass default.
    pub fn set_coefficients(&mut self, filter_type: &str, cutoff: i64, q: i64)
        ensures
            *final(self) == with_coefficients_s(
                *old(self),
                topology_of(filter_type@),
                cutoff as int,
                q as int,
            ),
    {
        let t: FilterTopology = topology_from_name(filter_type);
        self.set_topology_coefficients(t, cutoff, q);
    }

    /// Derive and store normalized coefficients for a topology value.
    #[verifier::rlimit(100)]
    pub fn set_topology_coefficients(&mut self, topology: FilterTopology, cutoff: i64, q: i64)
        ensures
            *final(self) == with_coefficients_s(*old(self), topology, cutoff as int, q as int),
    {
        let limit: i64 = divc(sat_narrow(2 * (self.sample_rate as i128)), 5);
        let raised: i64 = if cutoff < SCALE {
            SCALE
        } else {
            cutoff
        };
        let clamped: i64 = if raised > limit {
            limit
        } else {
            raised
        };
        let omega: i64 = qdiv(qmul(TWO_PI, clamped), self.sample_rate);
        let sin_omega: i64 = sin_q(omega);
        let cos_omega: i64 = cos_q(omega);
        let alpha: i64 = qdiv(sin_omega, sat_narrow(2 * (q as i128)));
        let neg2cos: i64 = 0 - 2 * cos_omega;
        let b0: i64;
        let b1: i64;
        let b2: i64;
        let ra0: i64;
        let ra1: i64;
        let ra2: i64;
        match topology {
            FilterTopology::LowPass => {
                b0 = divc(SCALE - cos_omega, 2);
                b1 = SCALE - cos_omega;
                b2 = divc(SCALE - cos_omega, 2);
                ra0 = sat_narrow(SCALE as i128 + alpha as i128);
                ra1 = neg2cos;
                ra2 = sat_narrow(SCALE as i128 - alpha as i128);
            },
            FilterTopology::HighPass => {
                b0 = divc(SCALE + cos_omega, 2);
                b1 = -(SCALE + cos_omega);
                b2 = divc(SCALE + cos_omega, 2);
                ra0 = sat_narrow(SCALE as i128 + alpha as i128);
                ra1 = neg2cos;
                ra2 = sat_narrow(SCALE as i128 - alpha as i128);
            },
            FilterTopology::BandPass => {
                b0 = alpha;
                b1 = 0;
                b2 = sat_narrow(-(alpha as i128));
                ra0 = sat_narrow(SCALE as i128 + alpha as i128);
                ra1 = neg2cos;
                ra2 = sat_narrow(SCALE as i128 - alpha as i128);
            },
            FilterTopology::Notch => {
                b0 = SCALE;
                b1 = neg2cos;
                b2 = SCALE;
                ra0 = sat_narrow(SCALE as i128 + alpha as i128);
                ra1 = neg2cos;
                ra2 = sat_narrow(SCALE as i128 - alpha as i128);
            },
            FilterTopology::AllPass => {
                b0 = sat_narrow(SCALE as i128 - alpha as i128);
                b1 = neg2cos;
                b2 = sat_narrow(SCALE as i128 + alpha as i128);
                ra0 = sat_narrow(SCALE as i128 + alpha as i128);
                ra1 = neg2cos;
                ra2 = sat_narrow(SCALE as i128 - alpha as i128);
            },
            FilterTopology::LowShelf => {
                let gain: i64 = SCALE;
                let beta: i64 = qmul(sqrt_q(gain), sqrt_q(sat_narrow(2 * (alpha as i128))));
                let ap1: i64 = gain + SCALE;
                let am1: i64 = gain - SCALE;
                let am1_cos: i64 = qmul(am1, cos_omega);
                let ap1_cos: i64 = qmul(ap1, cos_omega);
                b0 = qmul(gain, sat_narrow(ap1 as i128 - am1_cos as i128 + beta as i128));
                b1 = qmul(2 * gain, sat_narrow(am1 as i128 - ap1_cos as i128));
                b2 = qmul(gain, sat_narrow(ap1 as i128 - am1_cos as i128 - beta as i128));
                ra0 = sat_narrow(ap1 as i128 + am1_cos as i128 + beta as i128);
                ra1 = sat_narrow(
                    -2 * (sat_narrow(am1 as i128 + ap1_cos as i128) as i128),
                );
                ra2 = sat_narrow(ap1 as i128 + am1_cos as i128 - beta as i128);
            },
            FilterTopology::HighShelf => {
                let gain: i64 = SCALE;
                let beta: i64 = qmul(sqrt_q(gain), sqrt_q(sat_narrow(2 * (alpha as i128))));
                let ap1: i64 = gain + SCALE;
                let am1: i64 = gain - SCALE;
                let am1_cos: i64 = qmul(am1, cos_omega);
                let ap1_cos: i64 = qmul(ap1, cos_omega);
                b0 = qmul(gain, sat_narrow(ap1 as i128 + am1_cos as i128 + beta as i128));
                b1 = qmul(-2 * gain, sat_narrow(am1 as i128 + ap1_cos as i128));
                b2 = qmul(gain, sat_narrow(ap1 as i128 + am1_cos as i128 - beta as i128));
                ra0 = sat_narrow(ap1 as i128 - am1_cos as i128 + beta as i128);
                ra1 = sat_narrow(
                    2 * (sat_narrow(am1 as i128 - ap1_cos as i128) as i128),
                );
                ra2 = sat_narrow(ap1 as i128 - am1_cos as i128 - beta as i128);
            },
        }
        self.a0 = qdiv(b0, ra0);
        self.a1 = qdiv(b1, ra0);
        self.a2 = qdiv(b2, ra0);
        self.b1 = qdiv(ra1, ra0);
        self.b2 = qdiv(ra2, ra0);
    }

    /// Process one sample through the recurrence and shift the history.
    pub fn process_sample(&mut self, input: i64) -> (output: i64)
        ensures
            output == step_out_s(*old(self), input),
            *final(self) == stepped_s(*old(self), input),
    {
        let t0: i64 = qmul(self.a0, input);
        let t1: i64 = qmul(self.a1, self.x1);
        let t2: i64 = qmul(self.a2, self.x2);
        let t3: i64 = qmul(self.b1, self.y1);
        let t4: i64 = qmul(self.b2, self.y2);
        let output: i64 = sat_narrow(
            t0 as i128 + t1 as i128 + t2 as i128 - t3 as i128 - t4 as i128,
        );
        self.x2 = self.x1;
        self.x1 = input;
        self.y2 = self.y1;
        self.y1 = output;
        output
    }

    /// Zero the four history cells; the coefficients stay.
    pub fn reset(&mut self)
        ensures
            final(self).x1 == 0 && final(self).x2 == 0,
            final(self).y1 == 0 && final(self).y2 == 0,
            final(self).a0 == old(self).a0 && final(self).a1 == old(self).a1,
            final(self).a2 == old(self).a2 && final(self).b1 == old(self).b1,
            final(self).b2 == old(self).b2,
            final(self).sample_rate == old(self).sample_rate,
    {
        self.x1 = 0;
        self.x2 = 0;
        self.y1 = 0;
        self.y2 = 0;
    }
}

/// The all-pass coefficient set is palindromic: its feed-forward side
/// reads its feedback side backwards.  This is the structural identity
/// behind the all-pass topology passing every frequency at full power.
pub proof fn lemma_allpass_palindrome(cos_omega: int, alpha: int)
    ensures
        raw_coeffs_s(FilterTopology::AllPass, cos_omega, alpha).b0 == raw_coeffs_s(
            FilterTopology::AllPass,
            cos_omega,
            alpha,
        ).a2,
        raw_coeffs_s(FilterTopology::AllPass, cos_omega, alpha).b1 == raw_coeffs_s(
            FilterTopology::AllPass,
            cos_omega,
            alpha,
        ).a1,
        raw_coeffs_s(FilterTopology::AllPass, cos_omega, alpha).b2 == raw_coeffs_s(
            FilterTopology::AllPass,
            cos_omega,
            alpha,
        ).a0,
{
}

/// The cutoff handed to the coefficient formulas always lies between
/// one hertz and the Nyquist bound whenever the sample rate admits that
/// band at all.
pub proof fn lemma_cutoff_clamp_range(cutoff: int, sample_rate: int)
    requires
        nyquist_limit_s(sample_rate) >= SCALE as int,
    ensures
        SCALE as int <= clamp_cutoff_s(cutoff, sample_rate) <= nyquist_limit_s(sample_rate),
{
}

} // verus!

