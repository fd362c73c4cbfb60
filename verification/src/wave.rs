//! Waveform shapes and their pointwise evaluation at a phase.
//!
//! A phase `p` in `[0, PHASE_ONE)` stands for the angle `2π·p/PHASE_ONE`.
//! Each shape maps a phase to an amplitude in `[-AMP_ONE, AMP_ONE]`.
//! The sine shape uses Bhaskara's rational approximation on each half
//! cycle, which is exact at 0, π/2 and π and stays within the unit range.

use vstd::prelude::*;
use vstd::arithmetic::div_mod::{lemma_div_is_ordered, lemma_div_multiples_vanish};
use crate::{AMP_ONE, PHASE_HALF, PHASE_ONE};

verus! {

/// The waveform shapes an oscillator can produce.
#[derive(Copy, Clone, PartialEq, Eq, Structural, Debug)]
pub enum Waveform {
    Sine,
    Square,
    Saw,
    Triangle,
}

/// Sine on the first half cycle: Bhaskara's approximation
/// `16q(π−q) / (5π² − 4q(π−q))`, scaled to `AMP_ONE`, for `q` in
/// `[0, PHASE_HALF]` phase units.
pub open spec fn spec_sine_half(q: int) -> int
    recommends
        0 <= q <= PHASE_HALF,
{
    (16 * q * (PHASE_HALF - q) * AMP_ONE) / (5 * PHASE_HALF * PHASE_HALF - 4 * q * (PHASE_HALF - q))
}

/// The amplitude of shape `w` at phase `p`, as an exact integer.
pub open spec fn spec_wave_value(w: Waveform, p: int) -> int
    recommends
        0 <= p < PHASE_ONE,
{
    match w {
        Waveform::Sine => if p <= PHASE_HALF {
            spec_sine_half(p)
        } else {
            -spec_sine_half(p - PHASE_HALF)
        },
        Waveform::Square => if p <= PHASE_HALF {
            AMP_ONE as int
        } else {
            -AMP_ONE as int
        },
        Waveform::Saw => (p * AMP_ONE) / (PHASE_HALF as int) - AMP_ONE,
        Waveform::Triangle => if p < PHASE_HALF {
            -AMP_ONE + (2 * AMP_ONE * p) / (PHASE_HALF as int)
        } else {
            AMP_ONE - (2 * AMP_ONE * (p - PHASE_HALF)) / (PHASE_HALF as int)
        },
    }
}

/// Every shape stays within one amplitude unit of zero.
pub proof fn lemma_wave_value_bounds(w: Waveform, p: int)
    requires
        0 <= p < PHASE_ONE,
    ensures
        -AMP_ONE <= spec_wave_value(w, p) <= AMP_ONE,
{
    match w {
        Waveform::Sine => {
            if p <= PHASE_HALF {
                lemma_sine_half_bounds(p);
            } else {
                lemma_sine_half_bounds(p - PHASE_HALF);
            }
        },
        Waveform::Square => {},
        Waveform::Saw => {
            lemma_div_is_ordered(0, p * AMP_ONE, PHASE_HALF as int);
            assert(p * AMP_ONE <= (PHASE_ONE - 1) * AMP_ONE) by (nonlinear_arith)
                requires
                    0 <= p <= PHASE_ONE - 1,
                    AMP_ONE == 1048576,
            ;
            lemma_div_is_ordered(p * AMP_ONE, (PHASE_ONE - 1) * AMP_ONE, PHASE_HALF as int);
        },
        Waveform::Triangle => {
            if p < PHASE_HALF {
                lemma_div_is_ordered(0, 2 * AMP_ONE * p, PHASE_HALF as int);
                assert(2 * AMP_ONE * p <= 2 * AMP_ONE * (PHASE_HALF - 1)) by (nonlinear_arith)
                    requires
                        0 <= p <= PHASE_HALF - 1,
                        AMP_ONE == 1048576,
                ;
                lemma_div_is_ordered(2 * AMP_ONE * p, 2 * AMP_ONE * (PHASE_HALF - 1), PHASE_HALF as int);
            } else {
                let q = p - PHASE_HALF;
                lemma_div_is_ordered(0, 2 * AMP_ONE * q, PHASE_HALF as int);
                assert(2 * AMP_ONE * q <= 2 * AMP_ONE * (PHASE_HALF - 1)) by (nonlinear_arith)
                    requires
                        0 <= q <= PHASE_HALF - 1,
                        AMP_ONE == 1048576,
                ;
                lemma_div_is_ordered(2 * AMP_ONE * q, 2 * AMP_ONE * (PHASE_HALF - 1), PHASE_HALF as int);
            }
        },
    }
}

/// The half-cycle sine is between 0 and `AMP_ONE`.
pub proof fn lemma_sine_half_bounds(q: int)
    requires
        0 <= q <= PHASE_HALF,
    ensures
        0 <= spec_sine_half(q) <= AMP_ONE,
{
    let h = PHASE_HALF as int;
    let t = q * (h - q);
    assert(0 <= t && 4 * t <= h * h) by (nonlinear_arith)
        requires
            0 <= q <= h,
            t == q * (h - q),
    ;
    let num = 16 * q * (h - q) * AMP_ONE;
    let den = 5 * h * h - 4 * q * (h - q);
    assert(num == 16 * t * AMP_ONE && den == 5 * h * h - 4 * t) by (nonlinear_arith)
        requires
            t == q * (h - q),
            num == 16 * q * (h - q) * AMP_ONE,
            den == 5 * h * h - 4 * q * (h - q),
    ;
    assert(num >= 0 && den >= 4 * h * h && num <= den * AMP_ONE) by (nonlinear_arith)
        requires
            num == 16 * t * AMP_ONE,
            den == 5 * h * h - 4 * t,
            0 <= t,
            4 * t <= h * h,
            h == 524288,
            AMP_ONE == 1048576,
    ;
    lemma_div_is_ordered(0, num, den);
    lemma_div_is_ordered(num, den * AMP_ONE, den);
    lemma_div_multiples_vanish(AMP_ONE as int, den);
    assert(den * AMP_ONE == AMP_ONE * den) by (nonlinear_arith);
}

/// Evaluates shape `w` at phase `p`, exactly as `spec_wave_value` states.
pub fn wave_value(w: Waveform, p: u64) -> (r: i64)
    requires
        p < PHASE_ONE,
    ensures
        r == spec_wave_value(w, p as int),
        -AMP_ONE <= r <= AMP_ONE,
{
    proof {
        lemma_wave_value_bounds(w, p as int);
    }
    match w {
        Waveform::Sine => {
            let q: u64 = if p <= PHASE_HALF {
                p
            } else {
                p - PHASE_HALF
            };
            proof {
                assert(0 <= q as int * (PHASE_HALF - q as int) && 4 * (q as int * (PHASE_HALF - q as int))
                    <= 524288int * 524288) by (nonlinear_arith)
                    requires
                        0 <= q as int <= 524288,
                ;
            }
            let t: u64 = q * (PHASE_HALF - q);
            let num: u64 = t * 16 * (AMP_ONE as u64);
            let den: u64 = 5 * PHASE_HALF * PHASE_HALF - 4 * t;
            proof {
                let qi = q as int;
                let h = PHASE_HALF as int;
                assert(num as int == 16 * qi * (h - qi) * AMP_ONE && den as int == 5 * h * h - 4 * qi * (h
                    - qi)) by (nonlinear_arith)
                    requires
                        t == qi * (h - qi),
                        num == t as int * 16 * AMP_ONE,
                        den == 5 * h * h - 4 * t,
                ;
                lemma_sine_half_bounds(qi);
            }
            let v: u64 = num / den;
            if p <= PHASE_HALF {
                v as i64
            } else {
                -(v as i64)
            }
        },
        Waveform::Square => {
            if p <= PHASE_HALF {
                AMP_ONE
            } else {
                -AMP_ONE
            }
        },
        Waveform::Saw => {
            ((p * (AMP_ONE as u64)) / PHASE_HALF) as i64 - AMP_ONE
        },
        Waveform::Triangle => {
            if p < PHASE_HALF {
                -AMP_ONE + ((2 * (AMP_ONE as u64) * p) / PHASE_HALF) as i64
            } else {
                AMP_ONE - ((2 * (AMP_ONE as u64) * (p - PHASE_HALF)) / PHASE_HALF) as i64
            }
        },
    }
}

} // verus!
