use audio_engine::adsr::{EnvState, ADSR};
use audio_engine::notes::{midi_to_freq, name_to_freq};
use audio_engine::synth::{Modulation, Oscillator, Synthesizer};
use audio_engine::wave::{wave_value, Waveform};
use audio_engine::{AMP_ONE, PHASE_HALF, PHASE_ONE};

// A frequency whose phase increment is exactly a quarter cycle at
// 44100 Hz: 11025 Hz in milli-hertz.
const QUARTER_FREQ: u64 = 11025000;

#[test]
fn square_samples_quarter_cycle() {
    let mut osc = Oscillator::new(Waveform::Square, QUARTER_FREQ, 44100);
    assert_eq!(osc.next_sample(), AMP_ONE); // phase 0
    assert_eq!(osc.next_sample(), AMP_ONE); // quarter
    assert_eq!(osc.next_sample(), AMP_ONE); // exactly half: sin = 0 counts as high
    assert_eq!(osc.next_sample(), -AMP_ONE); // three quarters
    assert_eq!(osc.next_sample(), AMP_ONE); // wrapped back to 0
}

#[test]
fn saw_samples_quarter_cycle() {
    let mut osc = Oscillator::new(Waveform::Saw, QUARTER_FREQ, 44100);
    assert_eq!(osc.next_sample(), -AMP_ONE);
    assert_eq!(osc.next_sample(), -AMP_ONE / 2);
    assert_eq!(osc.next_sample(), 0);
    assert_eq!(osc.next_sample(), AMP_ONE / 2);
}

#[test]
fn triangle_samples_quarter_cycle() {
    let mut osc = Oscillator::new(Waveform::Triangle, QUARTER_FREQ, 44100);
    assert_eq!(osc.next_sample(), -AMP_ONE);
    assert_eq!(osc.next_sample(), 0);
    assert_eq!(osc.next_sample(), AMP_ONE);
    assert_eq!(osc.next_sample(), 0);
}

#[test]
fn sine_samples_quarter_cycle() {
    let mut osc = Oscillator::new(Waveform::Sine, QUARTER_FREQ, 44100);
    assert_eq!(osc.next_sample(), 0); // sin 0
    assert_eq!(osc.next_sample(), AMP_ONE); // sin(pi/2): exact in Bhaskara form
    assert_eq!(osc.next_sample(), 0); // sin(pi)
    assert_eq!(osc.next_sample(), -AMP_ONE); // sin(3*pi/2)
}

#[test]
fn sine_thirty_degrees_close_to_half() {
    // Bhaskara's approximation at pi/6: within a few units of 0.5.
    let v = wave_value(Waveform::Sine, (PHASE_HALF / 6) as u64);
    assert!((v - AMP_ONE / 2).abs() <= 8, "{v}");
}

#[test]
fn phase_stays_inside_one_cycle() {
    // An awkward frequency near the limit: the phase must stay in
    // [0, PHASE_ONE) over many samples.
    let mut osc = Oscillator::new(Waveform::Saw, 44099999, 44100);
    for _ in 0..10000 {
        osc.next_sample();
        assert!(osc.phase < PHASE_ONE);
    }
}

#[test]
fn set_freq_keeps_phase() {
    let mut osc = Oscillator::new(Waveform::Sine, 440000, 44100);
    osc.next_sample();
    osc.next_sample();
    let phase = osc.phase;
    osc.set_freq(880000);
    assert_eq!(osc.phase, phase);
    assert_eq!(osc.freq_mhz, 880000);
}

#[test]
fn midi_reference_pitches() {
    assert_eq!(midi_to_freq(69), 440000); // A4 exactly 440 Hz
    assert_eq!(midi_to_freq(81), 880000);
    assert_eq!(midi_to_freq(57), 220000);
    assert_eq!(midi_to_freq(9), 13750);
    assert_eq!(midi_to_freq(60), 261625); // middle C, 261.625 Hz
    assert_eq!(midi_to_freq(0), 8175);
    assert_eq!(midi_to_freq(127), 12543853);
}

#[test]
fn name_parsing_reference_cases() {
    assert_eq!(name_to_freq("A4"), Some(midi_to_freq(69)));
    assert_eq!(name_to_freq("A4"), Some(440000));
    assert_eq!(name_to_freq(""), None);
    assert_eq!(name_to_freq("H4"), None); // letter outside the table
}

#[test]
fn name_parsing_accidentals_and_case() {
    assert_eq!(name_to_freq("a4"), Some(440000));
    assert_eq!(name_to_freq("C#4"), Some(midi_to_freq(61)));
    assert_eq!(name_to_freq("Db4"), Some(midi_to_freq(61)));
    assert_eq!(name_to_freq("Bb3"), Some(midi_to_freq(58)));
    assert_eq!(name_to_freq("bb3"), Some(midi_to_freq(58)));
    assert_eq!(name_to_freq("Cb4"), None); // pair outside the table
    assert_eq!(name_to_freq("E#2"), None);
}

#[test]
fn name_parsing_octave_edge_cases() {
    assert_eq!(name_to_freq("A-1"), Some(midi_to_freq(9)));
    assert_eq!(name_to_freq("A+4"), Some(440000));
    assert_eq!(name_to_freq("A"), None); // octave missing
    assert_eq!(name_to_freq("A4x"), None); // trailing junk
    assert_eq!(name_to_freq("A99999999999"), None); // octave overflows
    assert_eq!(name_to_freq("C0004"), Some(midi_to_freq(60))); // leading zeros
}

#[test]
fn envelope_attack_reaches_full_scale_on_schedule() {
    // 44.1 kHz, 10 ms attack = 441 samples, 0.8 sustain, 300 ms release.
    let mut env = ADSR::new(44100, 10, 100, 838861, 300);
    assert!(env.is_idle());
    env.note_on();
    for _ in 0..440 {
        let amp = env.next_amplitude();
        assert!(amp < AMP_ONE);
        assert_eq!(env.state, EnvState::Attack);
    }
    let amp = env.next_amplitude();
    assert_eq!(amp, AMP_ONE); // full scale on the 441st sample
    assert_eq!(env.state, EnvState::Decay);
}

#[test]
fn envelope_release_terminates_on_schedule() {
    let mut env = ADSR::new(44100, 10, 100, 838861, 300);
    env.note_on();
    for _ in 0..441 {
        env.next_amplitude();
    }
    // 100 ms decay = 4410 samples; afterwards the envelope sustains.
    for _ in 0..4410 {
        env.next_amplitude();
    }
    assert_eq!(env.state, EnvState::Sustain);
    assert_eq!(env.next_amplitude(), 838861);
    env.note_off();
    assert_eq!(env.state, EnvState::Release);
    // 300 ms release = 13230 samples; the last call returns silence.
    let mut last = i64::MAX;
    for _ in 0..13230 {
        last = env.next_amplitude();
    }
    assert_eq!(last, 0);
    assert!(env.is_idle());
}

#[test]
fn envelope_monotone_within_stages() {
    let mut env = ADSR::new(44100, 10, 100, 838861, 300);
    env.note_on();
    let mut prev = 0;
    while env.state == EnvState::Attack {
        let amp = env.next_amplitude();
        assert!(amp >= prev);
        prev = amp;
    }
    while env.state == EnvState::Decay {
        let amp = env.next_amplitude();
        assert!(amp <= prev);
        prev = amp;
    }
    env.note_off();
    while env.state == EnvState::Release {
        let amp = env.next_amplitude();
        assert!(amp <= prev);
        prev = amp;
    }
    assert!(env.is_idle());
}

#[test]
fn note_on_restarts_envelope_from_zero() {
    let mut env = ADSR::new(44100, 10, 100, 838861, 300);
    env.note_on();
    for _ in 0..500 {
        env.next_amplitude();
    }
    env.note_on();
    assert_eq!(env.state, EnvState::Attack);
    assert_eq!(env.level, 0);
}

#[test]
fn render_without_modulation_matches_components() {
    let mut synth = Synthesizer::new(44100);
    synth.note_on(69);
    let mut buf = vec![0i64; 8];
    synth.generate_samples(&mut buf);

    let mut osc = Oscillator::new(Waveform::Sine, midi_to_freq(69), 44100);
    let mut env = ADSR::new(44100, 10, 100, 838861, 300);
    env.note_on();
    for k in 0..8 {
        let cs = osc.next_sample();
        let amp = env.next_amplitude();
        let expected = if cs >= 0 { cs * amp / AMP_ONE } else { -((-cs) * amp / AMP_ONE) };
        assert_eq!(buf[k], expected, "sample {k}");
    }
}

#[test]
fn fresh_voices_are_identical() {
    assert_eq!(Synthesizer::new(44100), Synthesizer::new(44100));
    assert_eq!(Synthesizer::new(48000), Synthesizer::new(48000));
}

#[test]
fn render_while_idle_is_silence() {
    let mut synth = Synthesizer::new(44100);
    let mut buf = vec![7i64; 32];
    synth.generate_samples(&mut buf);
    assert_eq!(buf.len(), 32);
    assert!(buf.iter().all(|&v| v == 0));
}

#[test]
fn am_with_zero_depth_renders_silence() {
    let mut synth = Synthesizer::new(44100);
    synth.set_waveform(Waveform::Square);
    synth.set_modulation(Modulation::AM, 5000000, 0);
    synth.note_on(69);
    let mut buf = vec![1i64; 64];
    synth.generate_samples(&mut buf);
    assert!(buf.iter().all(|&v| v == 0));
}

#[test]
fn am_full_depth_square_first_sample() {
    let mut synth = Synthesizer::new(44100);
    synth.set_waveform(Waveform::Square);
    synth.set_modulation(Modulation::AM, 5000000, AMP_ONE);
    synth.note_on(69);
    let mut buf = vec![0i64; 1];
    synth.generate_samples(&mut buf);
    // Modulator and carrier both start high, so the amplitude factor is
    // full depth and the sample is exactly the first envelope level.
    assert_eq!(buf[0], 2378);
}

#[test]
fn fm_first_sample_uses_instantaneous_frequency() {
    let mut synth = Synthesizer::new(44100);
    synth.set_modulation(Modulation::FM, 5000000, 100000);
    synth.note_on(69);
    let mut buf = vec![0i64; 1];
    synth.generate_samples(&mut buf);
    // First modulator sample is sin(0) = 0, so the carrier advances by
    // the increment of the nominal 440 Hz pitch before evaluation.
    let inc = 440000u64 * PHASE_ONE / (44100 * 1000);
    let cs = wave_value(Waveform::Sine, inc);
    let env = 2378;
    let expected = if cs >= 0 { env * cs / AMP_ONE } else { -(env * (-cs) / AMP_ONE) };
    assert_eq!(buf[0], expected);
}

#[test]
fn modulation_off_resets_modulator() {
    let mut synth = Synthesizer::new(44100);
    synth.set_modulation(Modulation::FM, 5000000, 100000);
    let mut buf = vec![0i64; 16];
    synth.note_on(69);
    synth.generate_samples(&mut buf);
    synth.set_modulation(Modulation::Off, 123000, 0);
    assert_eq!(synth.modulator.freq_mhz, 0);
    assert_eq!(synth.modulator.phase, 0);
    assert_eq!(synth.modulator.phase_inc, 0);
}

#[test]
fn modulation_off_twice_is_idempotent() {
    let mut a = Synthesizer::new(44100);
    let mut b = Synthesizer::new(44100);
    a.set_modulation(Modulation::FM, 5000000, 100000);
    b.set_modulation(Modulation::FM, 5000000, 100000);
    a.set_modulation(Modulation::Off, 111000, 5);
    b.set_modulation(Modulation::Off, 111000, 5);
    b.set_modulation(Modulation::Off, 222000, 5);
    assert_eq!(a, b);
}

#[test]
fn note_on_sets_pitch_and_resets_phases() {
    let mut synth = Synthesizer::new(44100);
    let mut buf = vec![0i64; 5];
    synth.note_on(69);
    synth.generate_samples(&mut buf);
    synth.note_on(57);
    assert_eq!(synth.base_freq_mhz, 220000);
    assert_eq!(synth.carrier.freq_mhz, 220000);
    assert_eq!(synth.carrier.phase, 0);
    assert_eq!(synth.modulator.phase, 0);
    assert_eq!(synth.adsr.state, EnvState::Attack);
    assert_eq!(synth.adsr.level, 0);
}

#[test]
fn note_off_only_touches_envelope() {
    let mut synth = Synthesizer::new(44100);
    let mut buf = vec![0i64; 5];
    synth.note_on(69);
    synth.generate_samples(&mut buf);
    let carrier_before = synth.carrier;
    synth.note_off();
    assert_eq!(synth.carrier, carrier_before);
    assert_eq!(synth.adsr.state, EnvState::Release);
}
