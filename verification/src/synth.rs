//! The phase-accumulator oscillator and the synthesizer voice that
//! composes two oscillators with the envelope generator.

use vstd::prelude::*;
use vstd::arithmetic::div_mod::{lemma_div_is_ordered, lemma_multiply_divide_lt};
use crate::{AMP_ONE, MOD_INDEX_MAX, PHASE_ONE};
use crate::adsr::{lemma_env_step_wf, spec_env_note_off, spec_env_note_on, spec_env_step, ADSR, EnvState};
use crate::fixed::{lemma_muldiv_bound, lemma_muldiv_zero, muldiv, spec_muldiv};
use crate::notes::{midi_to_freq, spec_midi_freq};
use crate::wave::{lemma_wave_value_bounds, spec_wave_value, wave_value, Waveform};

verus! {

/// A periodic signal generator: one waveform sample per call, advancing
/// an internal phase accumulator by a precomputed per-sample increment.
#[derive(Copy, Clone, PartialEq, Eq, Structural, Debug)]
pub struct Oscillator {
    pub waveform: Waveform,
    /// Frequency in milli-hertz; stays below `1000 * sample_rate`.
    pub freq_mhz: u64,
    /// Phase accumulator in cycle units, always inside `[0, PHASE_ONE)`.
    pub phase: u64,
    /// Sample rate in hertz, positive.
    pub sample_rate: u32,
    /// Phase units advanced per sample, derived from the frequency.
    pub phase_inc: u64,
}

/// Phase units per sample for a frequency (milli-hertz) at a sample rate
/// (hertz): one full cycle scaled by frequency over sample rate.
pub open spec fn spec_phase_inc(freq_mhz: int, sample_rate: int) -> int {
    (freq_mhz * PHASE_ONE) / (sample_rate * 1000)
}

/// Advance a phase by `inc` and wrap it back below `PHASE_ONE` by a
/// single subtraction; correct whenever `inc < PHASE_ONE`.
pub open spec fn spec_phase_wrap(phase: int, inc: int) -> int {
    if phase + inc >= PHASE_ONE {
        phase + inc - PHASE_ONE
    } else {
        phase + inc
    }
}

/// The oscillator state after producing one sample: only the phase moves.
pub open spec fn spec_osc_step(o: Oscillator) -> Oscillator {
    Oscillator { phase: spec_phase_wrap(o.phase as int, o.phase_inc as int) as u64, ..o }
}

/// The oscillator state after producing `n` samples.
pub open spec fn spec_osc_run(o: Oscillator, n: nat) -> Oscillator
    decreases n,
{
    if n == 0 {
        o
    } else {
        spec_osc_step(spec_osc_run(o, (n - 1) as nat))
    }
}

/// The `n`-th sample an oscillator produces (0-indexed): the waveform
/// evaluated at the phase reached after `n` earlier samples.
pub open spec fn spec_osc_sample(o: Oscillator, n: nat) -> int {
    spec_wave_value(o.waveform, spec_osc_run(o, n).phase as int)
}

/// For a frequency below the sample rate the derived increment stays
/// below one full cycle, so the single-subtraction wrap is sound.
pub proof fn lemma_phase_inc_bound(freq_mhz: int, sample_rate: int)
    requires
        0 < sample_rate,
        0 <= freq_mhz < 1000 * sample_rate,
    ensures
        0 <= spec_phase_inc(freq_mhz, sample_rate) < PHASE_ONE,
{
    let d = sample_rate * 1000;
    lemma_div_is_ordered(0, freq_mhz * PHASE_ONE, d);
    assert(freq_mhz * PHASE_ONE < d * PHASE_ONE) by (nonlinear_arith)
        requires
            0 <= freq_mhz < d,
            PHASE_ONE == 1048576,
    ;
    lemma_multiply_divide_lt(freq_mhz * PHASE_ONE, d, PHASE_ONE as int);
}

impl Oscillator {
    /// The oscillator's numeric invariant: positive sample rate, a
    /// frequency below the sample rate (the bound under which the wrap
    /// by one subtraction is correct), a phase inside one cycle, and an
    /// increment derived from the frequency.
    pub open spec fn wf(self) -> bool {
        &&& self.sample_rate > 0
        &&& self.freq_mhz < 1000 * self.sample_rate
        &&& self.phase < PHASE_ONE
        &&& self.phase_inc == spec_phase_inc(self.freq_mhz as int, self.sample_rate as int)
    }

    /// Builds an oscillator at phase zero with the per-sample increment
    /// precomputed from the frequency and sample rate.
    pub fn new(waveform: Waveform, freq_mhz: u64, sample_rate: u32) -> (r: Oscillator)
        requires
            sample_rate > 0,
            freq_mhz < 1000 * sample_rate,
        ensures
            r.wf(),
            r.waveform == waveform,
            r.freq_mhz == freq_mhz,
            r.phase == 0,
            r.sample_rate == sample_rate,
    {
        proof {
            lemma_phase_inc_bound(freq_mhz as int, sample_rate as int);
        }
        Oscillator {
            waveform,
            freq_mhz,
            phase: 0,
            sample_rate,
            phase_inc: (freq_mhz * (PHASE_ONE)) / (sample_rate as u64 * 1000),
        }
    }

    /// Changes the frequency and recomputes the increment; the phase is
    /// kept, so the signal stays continuous across the change.
    pub fn set_freq(&mut self, freq_mhz: u64)
        requires
            old(self).wf(),
            freq_mhz < 1000 * old(self).sample_rate,
        ensures
            final(self).wf(),
            final(self).freq_mhz == freq_mhz,
            final(self).phase_inc == spec_phase_inc(freq_mhz as int, old(self).sample_rate as int),
            final(self).waveform == old(self).waveform,
            final(self).phase == old(self).phase,
            final(self).sample_rate == old(self).sample_rate,
    {
        proof {
            lemma_phase_inc_bound(freq_mhz as int, self.sample_rate as int);
        }
        self.freq_mhz = freq_mhz;
        self.phase_inc = (freq_mhz * (PHASE_ONE)) / (self.sample_rate as u64 * 1000);
    }

    /// Evaluates the waveform at the current phase, then advances the
    /// phase by the stored increment, wrapping by one subtraction. The
    /// phase stays inside `[0, PHASE_ONE)` and the sample inside one
    /// amplitude unit.
    pub fn next_sample(&mut self) -> (out: i64)
        requires
            old(self).wf(),
        ensures
            final(self).wf(),
            *final(self) == spec_osc_step(*old(self)),
            out == spec_wave_value(old(self).waveform, old(self).phase as int),
            -AMP_ONE <= out <= AMP_ONE,
            final(self).phase < PHASE_ONE,
    {
        proof {
            lemma_phase_inc_bound(self.freq_mhz as int, self.sample_rate as int);
        }
        let out = wave_value(self.waveform, self.phase);
        self.phase = self.phase + self.phase_inc;
        if self.phase >= PHASE_ONE {
            self.phase = self.phase - PHASE_ONE;
        }
        out
    }
}

/// Running an oscillator preserves its invariant and its configuration:
/// only the phase moves, and it stays inside one cycle however many
/// samples are drawn.
pub proof fn lemma_osc_run_wf(o: Oscillator, n: nat)
    requires
        o.wf(),
    ensures
        spec_osc_run(o, n).wf(),
        spec_osc_run(o, n).waveform == o.waveform,
        spec_osc_run(o, n).freq_mhz == o.freq_mhz,
        spec_osc_run(o, n).sample_rate == o.sample_rate,
        spec_osc_run(o, n).phase_inc == o.phase_inc,
        spec_osc_run(o, n).phase < PHASE_ONE,
    decreases n,
{
    if n > 0 {
        lemma_osc_run_wf(o, (n - 1) as nat);
        lemma_phase_inc_bound(o.freq_mhz as int, o.sample_rate as int);
    }
}

/// Closed form of the phase: after `n` samples the accumulator holds the
/// start phase plus `n` increments, reduced modulo one cycle. With a
/// start phase of zero, the `n`-th sample is therefore the waveform at
/// `(n * phase_inc) % PHASE_ONE`, the fixed-point counterpart of
/// evaluating the shape at `2π·f·n/sr`.
pub proof fn lemma_osc_run_phase(o: Oscillator, n: nat)
    requires
        o.wf(),
    ensures
        spec_osc_run(o, n).phase == (o.phase + n * o.phase_inc) % (PHASE_ONE as int),
        spec_osc_sample(o, n) == spec_wave_value(o.waveform, (o.phase + n * o.phase_inc) % (
        PHASE_ONE as int)),
    decreases n,
{
    let p = PHASE_ONE as int;
    lemma_phase_inc_bound(o.freq_mhz as int, o.sample_rate as int);
    lemma_osc_run_wf(o, n);
    if n == 0 {
        assert(o.phase + 0 * o.phase_inc == o.phase) by (nonlinear_arith);
    } else {
        lemma_osc_run_phase(o, (n - 1) as nat);
        lemma_osc_run_wf(o, (n - 1) as nat);
        let prev = spec_osc_run(o, (n - 1) as nat);
        assert(o.phase + n * o.phase_inc == (o.phase + (n - 1) * o.phase_inc) + o.phase_inc)
            by (nonlinear_arith);
        assert((prev.phase + o.phase_inc) % p == (((o.phase + (n - 1) * o.phase_inc) % p) + (
        o.phase_inc as int % p)) % p) by {
            assert(o.phase_inc as int % p == o.phase_inc) by {
                vstd::arithmetic::div_mod::lemma_small_mod(o.phase_inc as nat, PHASE_ONE as nat);
            }
        }
        vstd::arithmetic::div_mod::lemma_add_mod_noop(
            o.phase + (n - 1) * o.phase_inc,
            o.phase_inc as int,
            p,
        );
        assert(spec_phase_wrap(prev.phase as int, o.phase_inc as int) == (prev.phase
            + o.phase_inc) % p) by {
            if prev.phase + o.phase_inc >= p {
                vstd::arithmetic::div_mod::lemma_small_mod(
                    (prev.phase + o.phase_inc - p) as nat,
                    PHASE_ONE as nat,
                );
                vstd::arithmetic::div_mod::lemma_mod_sub_multiples_vanish(
                    prev.phase + o.phase_inc,
                    p,
                );
            } else {
                vstd::arithmetic::div_mod::lemma_small_mod(
                    (prev.phase + o.phase_inc) as nat,
                    PHASE_ONE as nat,
                );
            }
        }
    }
}

/// The modulation scheme routing the modulator into the carrier.
#[derive(Copy, Clone, PartialEq, Eq, Structural, Debug)]
pub enum Modulation {
    Off,
    AM,
    FM,
}

/// The synthesizer voice: a carrier oscillator, a modulator oscillator,
/// the envelope generator, and the selected modulation scheme. The
/// carrier's nominal note frequency is held separately so FM can perturb
/// the instantaneous frequency per sample without losing the pitch.
#[derive(Copy, Clone, PartialEq, Eq, Structural, Debug)]
pub struct Synthesizer {
    /// Sample rate in hertz, shared by both oscillators.
    pub sample_rate: u32,
    pub carrier: Oscillator,
    pub modulator: Oscillator,
    pub adsr: ADSR,
    pub modulation: Modulation,
    /// Modulation depth: amplitude units for AM, milli-hertz of
    /// frequency deviation for FM.
    pub mod_index: i64,
    /// The carrier's nominal note frequency in milli-hertz.
    pub base_freq_mhz: u64,
}

/// Under FM the instantaneous frequency `base ± mod_index` must stay
/// non-negative and below the sample rate for the phase wrap to be
/// correct; this is the rendering precondition that guards it.
pub open spec fn spec_fm_ok(s: Synthesizer) -> bool {
    s.modulation == Modulation::FM ==> s.mod_index <= s.base_freq_mhz && s.base_freq_mhz
        + s.mod_index < 1000 * s.sample_rate
}

/// The carrier phase one FM sample advances to: the nominal frequency
/// shifted by the scaled modulator sample, turned into a phase increment
/// and wrapped, bypassing the carrier's stored increment.
pub open spec fn spec_fm_phase(s: Synthesizer, mod_sample: int) -> int {
    let dev = spec_muldiv(mod_sample, s.mod_index as int, AMP_ONE as int);
    let inc = spec_phase_inc(s.base_freq_mhz + dev, s.sample_rate as int);
    spec_phase_wrap(s.carrier.phase as int, inc)
}

/// One output sample of the voice: the synthesizer state afterwards and
/// the sample value, following the per-sample order of operations —
/// modulator first (when active), then the carrier under the selected
/// scheme, then the envelope, then the product of carrier and envelope.
pub open spec fn spec_synth_step(s: Synthesizer) -> (Synthesizer, int) {
    let active = s.modulation != Modulation::Off;
    let mod_sample = if active {
        spec_wave_value(s.modulator.waveform, s.modulator.phase as int)
    } else {
        0int
    };
    let modulator2 = if active {
        spec_osc_step(s.modulator)
    } else {
        s.modulator
    };
    let carrier_sample = match s.modulation {
        Modulation::Off => spec_wave_value(s.carrier.waveform, s.carrier.phase as int),
        Modulation::AM => spec_muldiv(
            spec_wave_value(s.carrier.waveform, s.carrier.phase as int),
            spec_muldiv(mod_sample + AMP_ONE, s.mod_index as int, 2 * AMP_ONE),
            AMP_ONE as int,
        ),
        Modulation::FM => spec_wave_value(s.carrier.waveform, spec_fm_phase(s, mod_sample)),
    };
    let carrier2 = match s.modulation {
        Modulation::Off => spec_osc_step(s.carrier),
        Modulation::AM => spec_osc_step(s.carrier),
        Modulation::FM => (Oscillator { phase: spec_fm_phase(s, mod_sample) as u64, ..s.carrier }),
    };
    let adsr2 = spec_env_step(s.adsr);
    let out = spec_muldiv(adsr2.level as int, carrier_sample, AMP_ONE as int);
    ((Synthesizer { carrier: carrier2, modulator: modulator2, adsr: adsr2, ..s }), out)
}

/// The synthesizer state after one rendered sample.
pub open spec fn spec_synth_next(s: Synthesizer) -> Synthesizer {
    spec_synth_step(s).0
}

/// The value of the next rendered sample.
pub open spec fn spec_synth_out(s: Synthesizer) -> int {
    spec_synth_step(s).1
}

/// The synthesizer state after `n` rendered samples.
pub open spec fn spec_synth_run(s: Synthesizer, n: nat) -> Synthesizer
    decreases n,
{
    if n == 0 {
        s
    } else {
        spec_synth_next(spec_synth_run(s, (n - 1) as nat))
    }
}

/// One rendered sample keeps the voice well formed, keeps the FM guard,
/// and leaves the configuration (scheme, depth, nominal pitch, rate,
/// shapes) untouched; the sample's magnitude never exceeds the depth or
/// one amplitude unit, whichever is larger.
pub proof fn lemma_synth_step_wf(s: Synthesizer)
    requires
        s.wf(),
        spec_fm_ok(s),
    ensures
        spec_synth_next(s).wf(),
        spec_fm_ok(spec_synth_next(s)),
        spec_synth_next(s).sample_rate == s.sample_rate,
        spec_synth_next(s).modulation == s.modulation,
        spec_synth_next(s).mod_index == s.mod_index,
        spec_synth_next(s).base_freq_mhz == s.base_freq_mhz,
        spec_synth_next(s).carrier.waveform == s.carrier.waveform,
        spec_synth_next(s).modulator.waveform == s.modulator.waveform,
{
    lemma_env_step_wf(s.adsr);
    lemma_phase_inc_bound(s.carrier.freq_mhz as int, s.carrier.sample_rate as int);
    lemma_phase_inc_bound(s.modulator.freq_mhz as int, s.modulator.sample_rate as int);
    lemma_wave_value_bounds(s.modulator.waveform, s.modulator.phase as int);
    if s.modulation == Modulation::FM {
        let mod_sample = spec_wave_value(s.modulator.waveform, s.modulator.phase as int);
        lemma_muldiv_bound(mod_sample, s.mod_index as int, AMP_ONE as int);
        let dev = spec_muldiv(mod_sample, s.mod_index as int, AMP_ONE as int);
        lemma_phase_inc_bound(s.base_freq_mhz + dev, s.sample_rate as int);
    }
}

/// Rendering any number of samples keeps the voice well formed and its
/// configuration unchanged.
pub proof fn lemma_synth_run_wf(s: Synthesizer, n: nat)
    requires
        s.wf(),
        spec_fm_ok(s),
    ensures
        spec_synth_run(s, n).wf(),
        spec_fm_ok(spec_synth_run(s, n)),
        spec_synth_run(s, n).sample_rate == s.sample_rate,
        spec_synth_run(s, n).modulation == s.modulation,
        spec_synth_run(s, n).mod_index == s.mod_index,
        spec_synth_run(s, n).base_freq_mhz == s.base_freq_mhz,
    decreases n,
{
    if n > 0 {
        lemma_synth_run_wf(s, (n - 1) as nat);
        lemma_synth_step_wf(spec_synth_run(s, (n - 1) as nat));
    }
}

/// The synthesizer state after a waveform change: the same shape is
/// applied to both the carrier and the modulator.
pub open spec fn spec_set_waveform(s: Synthesizer, wave: Waveform) -> Synthesizer {
    Synthesizer {
        carrier: (Oscillator { waveform: wave, ..s.carrier }),
        modulator: (Oscillator { waveform: wave, ..s.modulator }),
        ..s
    }
}

/// The synthesizer state after a modulation change: the scheme and depth
/// are stored; an active scheme retunes the modulator, while switching
/// modulation off silences it at frequency zero and phase zero.
pub open spec fn spec_set_modulation(
    s: Synthesizer,
    mode: Modulation,
    mod_freq_mhz: u64,
    mod_index: i64,
) -> Synthesizer {
    if mode != Modulation::Off {
        Synthesizer {
            modulation: mode,
            mod_index,
            modulator: (Oscillator {
                freq_mhz: mod_freq_mhz,
                phase_inc: spec_phase_inc(mod_freq_mhz as int, s.modulator.sample_rate as int) as u64,
                ..s.modulator
            }),
            ..s
        }
    } else {
        Synthesizer {
            modulation: mode,
            mod_index,
            modulator: (Oscillator {
                freq_mhz: 0,
                phase_inc: spec_phase_inc(0, s.modulator.sample_rate as int) as u64,
                phase: 0,
                ..s.modulator
            }),
            ..s
        }
    }
}

/// The synthesizer state after a note-on: the note's frequency becomes
/// the nominal pitch and retunes the carrier, both phases restart at
/// zero, and the envelope re-enters Attack.
pub open spec fn spec_note_on(s: Synthesizer, midi_note: u8) -> Synthesizer {
    Synthesizer {
        base_freq_mhz: spec_midi_freq(midi_note),
        carrier: (Oscillator {
            freq_mhz: spec_midi_freq(midi_note),
            phase_inc: spec_phase_inc(
                spec_midi_freq(midi_note) as int,
                s.carrier.sample_rate as int,
            ) as u64,
            phase: 0,
            ..s.carrier
        }),
        modulator: (Oscillator { phase: 0, ..s.modulator }),
        adsr: spec_env_note_on(s.adsr),
        ..s
    }
}

/// Turning modulation off is idempotent: a second call with the same
/// arguments leaves the state of the first call unchanged, whatever
/// frequency the first call was given.
pub proof fn lemma_set_modulation_off_idempotent(
    s: Synthesizer,
    f1: u64,
    f2: u64,
    mod_index: i64,
)
    ensures
        spec_set_modulation(
            spec_set_modulation(s, Modulation::Off, f1, mod_index),
            Modulation::Off,
            f2,
            mod_index,
        ) == spec_set_modulation(s, Modulation::Off, f2, mod_index),
{
}

/// With an AM depth of zero every rendered sample is zero, whatever the
/// carrier, modulator and envelope are doing.
pub proof fn lemma_am_zero_index(s: Synthesizer, n: nat)
    requires
        s.wf(),
        s.modulation == Modulation::AM,
        s.mod_index == 0,
    ensures
        spec_synth_out(spec_synth_run(s, n)) == 0,
{
    lemma_synth_run_wf(s, n);
    let sn = spec_synth_run(s, n);
    let mod_sample = spec_wave_value(sn.modulator.waveform, sn.modulator.phase as int);
    lemma_muldiv_zero(mod_sample + AMP_ONE, 2 * AMP_ONE);
    lemma_muldiv_zero(spec_wave_value(sn.carrier.waveform, sn.carrier.phase as int), AMP_ONE as int);
    lemma_muldiv_zero(spec_env_step(sn.adsr).level as int, AMP_ONE as int);
}

impl Synthesizer {
    /// The voice's invariant: both oscillators are well formed and share
    /// the sample rate, the envelope is well formed, the depth is inside
    /// the accepted range, and the nominal pitch is below the rate.
    pub open spec fn wf(self) -> bool {
        &&& self.sample_rate > 0
        &&& self.carrier.wf()
        &&& self.modulator.wf()
        &&& self.carrier.sample_rate == self.sample_rate
        &&& self.modulator.sample_rate == self.sample_rate
        &&& self.adsr.wf()
        &&& 0 <= self.mod_index <= MOD_INDEX_MAX
        &&& self.base_freq_mhz < 1000 * self.sample_rate
    }

    /// Builds the default voice: sine carrier at A4 (440 Hz), silent
    /// modulator, no modulation, and an envelope with a 10 ms attack,
    /// 100 ms decay, 0.8 sustain and 300 ms release.
    pub fn new(sample_rate: u32) -> (r: Synthesizer)
        requires
            sample_rate >= 441,
        ensures
            r.wf(),
            spec_fm_ok(r),
            r.sample_rate == sample_rate,
            r.modulation == Modulation::Off,
            r.mod_index == 0,
            r.base_freq_mhz == 440000,
            r.carrier.waveform == Waveform::Sine,
            r.carrier.freq_mhz == 440000,
            r.carrier.phase == 0,
            r.modulator.waveform == Waveform::Sine,
            r.modulator.freq_mhz == 0,
            r.modulator.phase == 0,
            r.adsr.state == EnvState::Idle,
            r.adsr.level == 0,
            r.adsr.release_dec == 0,
            r.adsr.sustain_level == 838861,
            r.adsr.attack_samples == 10 * sample_rate as int / 1000,
            r.adsr.decay_samples == 100 * sample_rate as int / 1000,
            r.adsr.release_samples == 300 * sample_rate as int / 1000,
    {
        Synthesizer {
            sample_rate,
            carrier: Oscillator::new(Waveform::Sine, 440000, sample_rate),
            modulator: Oscillator::new(Waveform::Sine, 0, sample_rate),
            adsr: ADSR::new(sample_rate, 10, 100, 838861, 300),
            modulation: Modulation::Off,
            mod_index: 0,
            base_freq_mhz: 440000,
        }
    }

    /// Applies the same waveform shape to both the carrier and the
    /// modulator.
    pub fn set_waveform(&mut self, wave: Waveform)
        requires
            old(self).wf(),
        ensures
            final(self).wf(),
            *final(self) == spec_set_waveform(*old(self), wave),
    {
        self.carrier.waveform = wave;
        self.modulator.waveform = wave;
    }

    /// Selects the modulation scheme and depth; an active scheme retunes
    /// the modulator, switching it off resets the modulator to frequency
    /// zero and phase zero.
    pub fn set_modulation(&mut self, mode: Modulation, mod_freq_mhz: u64, mod_index: i64)
        requires
            old(self).wf(),
            0 <= mod_index <= MOD_INDEX_MAX,
            mode != Modulation::Off ==> mod_freq_mhz < 1000 * old(self).sample_rate,
        ensures
            final(self).wf(),
            *final(self) == spec_set_modulation(*old(self), mode, mod_freq_mhz, mod_index),
    {
        self.modulation = mode;
        self.mod_index = mod_index;
        if mode != Modulation::Off {
            self.modulator.set_freq(mod_freq_mhz);
        } else {
            self.modulator.set_freq(0);
            self.modulator.phase = 0;
        }
    }

    /// Starts a note: its frequency becomes the nominal pitch and the
    /// carrier's frequency, both phases restart at zero, and the
    /// envelope re-enters Attack.
    pub fn note_on(&mut self, midi_note: u8)
        requires
            old(self).wf(),
            spec_midi_freq(midi_note) < 1000 * old(self).sample_rate,
        ensures
            final(self).wf(),
            *final(self) == spec_note_on(*old(self), midi_note),
    {
        let f = midi_to_freq(midi_note);
        self.base_freq_mhz = f;
        self.carrier.set_freq(f);
        self.carrier.phase = 0;
        self.modulator.phase = 0;
        self.adsr.note_on();
    }

    /// Ends the note: only the envelope reacts, entering Release; the
    /// oscillators keep free-running until the envelope reaches Idle.
    pub fn note_off(&mut self)
        requires
            old(self).wf(),
        ensures
            final(self).wf(),
            *final(self) == (Synthesizer { adsr: spec_env_note_off(old(self).adsr), ..*old(self) }),
    {
        self.adsr.note_off();
    }

    /// Fills the whole buffer, one sample per slot in order, each the
    /// product of the carrier (under the selected modulation) and the
    /// envelope; rendering continues through silence. Slot `i` holds
    /// exactly the `i`-th sample of the step function, and the voice
    /// finishes in the state that many steps reach.
    pub fn generate_samples(&mut self, out: &mut Vec<i64>)
        requires
            old(self).wf(),
            spec_fm_ok(*old(self)),
        ensures
            final(self).wf(),
            *final(self) == spec_synth_run(*old(self), old(out)@.len() as nat),
            final(out)@.len() == old(out)@.len(),
            forall|k: int|
                0 <= k < old(out)@.len() ==> final(out)@[k] == spec_synth_out(
                    spec_synth_run(*old(self), k as nat),
                ),
    {
        let ghost s0 = *self;
        let len = out.len();
        let mut i: usize = 0;
        while i < len
            invariant
                i <= len,
                len == out@.len(),
                self.wf(),
                spec_fm_ok(*self),
                *self == spec_synth_run(s0, i as nat),
                forall|k: int|
                    0 <= k < i ==> out@[k] == spec_synth_out(spec_synth_run(s0, k as nat)),
            decreases len - i,
        {
            let ghost pre = *self;
            let mod_sample: i64 = if self.modulation != Modulation::Off {
                self.modulator.next_sample()
            } else {
                0
            };
            let carrier_sample: i64;
            match self.modulation {
                Modulation::Off => {
                    carrier_sample = self.carrier.next_sample();
                },
                Modulation::AM => {
                    let amplitude_mod = muldiv(mod_sample + AMP_ONE, self.mod_index, 2 * AMP_ONE);
                    let raw = self.carrier.next_sample();
                    carrier_sample = muldiv(raw, amplitude_mod, AMP_ONE);
                },
                Modulation::FM => {
                    let dev = muldiv(mod_sample, self.mod_index, AMP_ONE);
                    let current: u64 = if dev >= 0 {
                        self.base_freq_mhz + (dev as u64)
                    } else {
                        self.base_freq_mhz - ((-dev) as u64)
                    };
                    proof {
                        lemma_phase_inc_bound(current as int, self.sample_rate as int);
                    }
                    let inc: u64 = (current * (PHASE_ONE)) / (self.sample_rate as u64 * 1000);
                    let mut ph: u64 = self.carrier.phase + inc;
                    if ph >= PHASE_ONE {
                        ph = ph - PHASE_ONE;
                    }
                    self.carrier.phase = ph;
                    carrier_sample = wave_value(self.carrier.waveform, ph);
                },
            }
            let env_amp = self.adsr.next_amplitude();
            let v = muldiv(env_amp, carrier_sample, AMP_ONE);
            proof {
                lemma_synth_step_wf(pre);
                assert(*self == spec_synth_next(pre));
                assert(v == spec_synth_out(pre));
                assert(spec_synth_run(s0, (i + 1) as nat) == spec_synth_next(
                    spec_synth_run(s0, i as nat),
                ));
            }
            out.set(i, v);
            i = i + 1;
        }
    }
}

} // verus!
