//! The four-stage envelope generator: a five-state machine producing one
//! amplitude value per sample, driven by note-on/note-off triggers.
//!
//! Levels are amplitude units scaled by `AMP_ONE`. Durations are whole
//! sample counts; a duration of zero samples gives an instantaneous
//! one-step transition instead of a division error. The per-sample rates
//! rise or fall by the ceiling of the exact quotient, so a stage always
//! completes within its nominal duration.

use vstd::prelude::*;
use vstd::arithmetic::div_mod::{lemma_div_is_ordered, lemma_div_multiples_vanish, lemma_multiply_divide_lt};
use crate::AMP_ONE;
use crate::fixed::div_ceil;

verus! {

/// The stage the envelope is in.
#[derive(Copy, Clone, PartialEq, Eq, Structural, Debug)]
pub enum EnvState {
    Idle,
    Attack,
    Decay,
    Sustain,
    Release,
}

/// Attack/decay/sustain/release envelope generator.
#[derive(Copy, Clone, PartialEq, Eq, Structural, Debug)]
pub struct ADSR {
    /// Attack duration in whole samples.
    pub attack_samples: u64,
    /// Decay duration in whole samples.
    pub decay_samples: u64,
    /// Release duration in whole samples.
    pub release_samples: u64,
    /// Sustain level in amplitude units, within `[0, AMP_ONE]`.
    pub sustain_level: i64,
    /// Current stage.
    pub state: EnvState,
    /// Current level in amplitude units, within `[0, AMP_ONE]`.
    pub level: i64,
    /// Per-sample rise during Attack, precomputed at construction.
    pub attack_inc: i64,
    /// Per-sample fall during Decay, precomputed at construction.
    pub decay_dec: i64,
    /// Per-sample fall during Release, recomputed from the current level
    /// each time Release is entered.
    pub release_dec: i64,
}

/// Per-sample rate that crosses `total` units in `n` samples: the
/// quotient rounded up, or all of `total` at once when `n` is zero.
pub open spec fn spec_rate(total: int, n: int) -> int
    recommends
        0 <= total,
        0 <= n,
{
    if n == 0 {
        total
    } else {
        div_ceil(total, n)
    }
}

/// A rate over a span inside `[0, AMP_ONE]` lands back inside it, never
/// exceeds the span, and is positive whenever the span is.
pub proof fn lemma_rate_bounds(total: int, n: int)
    requires
        0 <= total <= AMP_ONE,
        0 <= n,
    ensures
        0 <= spec_rate(total, n) <= total,
        total >= 1 && n >= 1 ==> spec_rate(total, n) >= 1,
{
    if n > 0 {
        lemma_div_is_ordered(0, total + n - 1, n);
        assert(total + n - 1 < n * (total + 1)) by (nonlinear_arith)
            requires
                n >= 1,
                total >= 0,
        ;
        lemma_multiply_divide_lt(total + n - 1, n, total + 1);
        if total >= 1 {
            lemma_div_is_ordered(n, total + n - 1, n);
            lemma_div_multiples_vanish(1, n);
        }
    }
}

/// The envelope state after one sample, following the stage table:
/// Attack rises and clamps to full scale, Decay falls and clamps to the
/// sustain level, Sustain holds, Release falls and clamps to zero
/// (entering Idle), Idle stays silent.
pub open spec fn spec_env_step(e: ADSR) -> ADSR {
    match e.state {
        EnvState::Idle => e,
        EnvState::Attack => {
            let l = e.level + e.attack_inc;
            if l >= AMP_ONE {
                ADSR { level: AMP_ONE, state: EnvState::Decay, ..e }
            } else {
                ADSR { level: l as i64, ..e }
            }
        },
        EnvState::Decay => {
            let l = e.level - e.decay_dec;
            if l <= e.sustain_level {
                ADSR { level: e.sustain_level, state: EnvState::Sustain, ..e }
            } else {
                ADSR { level: l as i64, ..e }
            }
        },
        EnvState::Sustain => ADSR { level: e.sustain_level, ..e },
        EnvState::Release => {
            let l = e.level - e.release_dec;
            if l <= 0 {
                ADSR { level: 0, state: EnvState::Idle, ..e }
            } else {
                ADSR { level: l as i64, ..e }
            }
        },
    }
}

/// The envelope state after a note-on: Attack restarts from level zero,
/// from any stage.
pub open spec fn spec_env_note_on(e: ADSR) -> ADSR {
    ADSR { state: EnvState::Attack, level: 0, ..e }
}

/// The envelope state after a note-off: any sounding stage other than
/// Release enters Release, with the fall rate recomputed from the
/// current level; Idle and Release are left alone.
pub open spec fn spec_env_note_off(e: ADSR) -> ADSR {
    if e.state != EnvState::Idle && e.state != EnvState::Release {
        ADSR {
            state: EnvState::Release,
            release_dec: spec_rate(e.level as int, e.release_samples as int) as i64,
            ..e
        }
    } else {
        e
    }
}

/// The envelope state after `n` samples.
pub open spec fn spec_env_run(e: ADSR, n: nat) -> ADSR
    decreases n,
{
    if n == 0 {
        e
    } else {
        spec_env_step(spec_env_run(e, (n - 1) as nat))
    }
}

/// Any number of envelope steps preserves the invariant and the
/// configuration; only the stage, the level and nothing else move.
pub proof fn lemma_env_run_wf(e: ADSR, n: nat)
    requires
        e.wf(),
    ensures
        spec_env_run(e, n).wf(),
        spec_env_run(e, n).attack_samples == e.attack_samples,
        spec_env_run(e, n).decay_samples == e.decay_samples,
        spec_env_run(e, n).release_samples == e.release_samples,
        spec_env_run(e, n).sustain_level == e.sustain_level,
        spec_env_run(e, n).attack_inc == e.attack_inc,
        spec_env_run(e, n).decay_dec == e.decay_dec,
        spec_env_run(e, n).release_dec == e.release_dec,
    decreases n,
{
    if n > 0 {
        lemma_env_run_wf(e, (n - 1) as nat);
        lemma_env_step_wf(spec_env_run(e, (n - 1) as nat));
    }
}

/// While the envelope is still in Attack after `n` steps from a fresh
/// note-on, the level has risen by exactly `n` increments and has not
/// yet reached full scale.
pub proof fn lemma_attack_progress(e: ADSR, n: nat)
    requires
        e.wf(),
        e.state == EnvState::Attack,
        e.level == 0,
    ensures
        spec_env_run(e, n).state == EnvState::Attack ==> spec_env_run(e, n).level == n
            * e.attack_inc && n * e.attack_inc < AMP_ONE,
    decreases n,
{
    lemma_env_run_wf(e, n);
    if n == 0 {
        assert(0 * e.attack_inc == 0) by (nonlinear_arith);
    } else {
        lemma_attack_progress(e, (n - 1) as nat);
        lemma_env_run_wf(e, (n - 1) as nat);
        if spec_env_run(e, n).state == EnvState::Attack {
            let prev = spec_env_run(e, (n - 1) as nat);
            assert(prev.state == EnvState::Attack);
            assert(n * e.attack_inc == (n - 1) * e.attack_inc + e.attack_inc) by (nonlinear_arith);
        }
    }
}

/// The attack stage ends within any span long enough that its per-step
/// rises cover the full scale — in particular within `attack_samples`
/// steps, whose ceiling-rounded increment covers it by construction.
pub proof fn lemma_attack_ends_within(e: ADSR, n: nat)
    requires
        e.wf(),
        e.state == EnvState::Attack,
        e.level == 0,
        n * e.attack_inc >= AMP_ONE,
    ensures
        spec_env_run(e, n).state != EnvState::Attack,
{
    lemma_attack_progress(e, n);
}

/// A fresh note-on leaves the Attack stage within the attack span: by
/// `attack_samples` steps (one step when that span is empty) the level
/// has reached full scale and the envelope has moved on.
pub proof fn lemma_note_on_attack_span(e: ADSR)
    requires
        e.wf(),
    ensures
        e.attack_samples > 0 ==> spec_env_run(spec_env_note_on(e), e.attack_samples as nat).state
            != EnvState::Attack,
        e.attack_samples == 0 ==> spec_env_run(spec_env_note_on(e), 1).state != EnvState::Attack,
{
    let a = spec_env_note_on(e);
    if e.attack_samples > 0 {
        crate::fixed::lemma_div_ceil_covers(AMP_ONE as int, e.attack_samples as int);
        lemma_attack_ends_within(a, e.attack_samples as nat);
    } else {
        assert(1 * e.attack_inc == e.attack_inc) by (nonlinear_arith);
        lemma_attack_ends_within(a, 1);
    }
}

/// While the envelope is still in Release after `n` steps, the level has
/// fallen by exactly `n` decrements and is still positive; from Release
/// the only other reachable stage is Idle.
pub proof fn lemma_release_progress(e: ADSR, n: nat)
    requires
        e.wf(),
        e.state == EnvState::Release,
    ensures
        spec_env_run(e, n).state == EnvState::Release || spec_env_run(e, n).state == EnvState::Idle,
        n >= 1 && spec_env_run(e, n).state == EnvState::Release ==> spec_env_run(e, n).level
            == e.level - n * e.release_dec && e.level - n * e.release_dec > 0,
    decreases n,
{
    lemma_env_run_wf(e, n);
    if n > 0 {
        lemma_release_progress(e, (n - 1) as nat);
        lemma_env_run_wf(e, (n - 1) as nat);
        assert(n * e.release_dec == (n - 1) * e.release_dec + e.release_dec) by (nonlinear_arith);
        assert(0 * e.release_dec == 0) by (nonlinear_arith);
    }
}

/// The release stage reaches silence within any span whose per-step
/// falls cover the starting level: after `n` such steps the envelope is
/// Idle at level zero.
pub proof fn lemma_release_ends_within(e: ADSR, n: nat)
    requires
        e.wf(),
        e.state == EnvState::Release,
        n >= 1,
        n * e.release_dec >= e.level,
    ensures
        spec_env_run(e, n).state == EnvState::Idle,
        spec_env_run(e, n).level == 0,
{
    lemma_release_progress(e, n);
    lemma_env_run_wf(e, n);
}

/// A note-off from a sounding stage reaches silence within the release
/// span: after `release_samples` further steps (one step when that span
/// is empty) the envelope is Idle at level zero.
pub proof fn lemma_note_off_release_span(e: ADSR)
    requires
        e.wf(),
        e.state != EnvState::Idle,
        e.state != EnvState::Release,
    ensures
        e.release_samples > 0 ==> spec_env_run(spec_env_note_off(e), e.release_samples as nat)
            == (ADSR { state: EnvState::Idle, level: 0, ..spec_env_note_off(e) }),
        e.release_samples == 0 ==> spec_env_run(spec_env_note_off(e), 1) == (ADSR {
            state: EnvState::Idle,
            level: 0,
            ..spec_env_note_off(e)
        }),
{
    let r = spec_env_note_off(e);
    lemma_rate_bounds(e.level as int, e.release_samples as int);
    if e.release_samples > 0 {
        crate::fixed::lemma_div_ceil_covers(e.level as int, e.release_samples as int);
        lemma_release_ends_within(r, e.release_samples as nat);
        lemma_env_run_wf(r, e.release_samples as nat);
    } else {
        assert(1 * r.release_dec == r.release_dec) by (nonlinear_arith);
        lemma_release_ends_within(r, 1);
        lemma_env_run_wf(r, 1);
    }
}

/// One envelope step preserves the invariant and touches only the stage
/// and the level; the level stays inside `[0, AMP_ONE]`.
pub proof fn lemma_env_step_wf(e: ADSR)
    requires
        e.wf(),
    ensures
        spec_env_step(e).wf(),
        spec_env_step(e).attack_samples == e.attack_samples,
        spec_env_step(e).decay_samples == e.decay_samples,
        spec_env_step(e).release_samples == e.release_samples,
        spec_env_step(e).sustain_level == e.sustain_level,
        spec_env_step(e).attack_inc == e.attack_inc,
        spec_env_step(e).decay_dec == e.decay_dec,
        spec_env_step(e).release_dec == e.release_dec,
        0 <= spec_env_step(e).level <= AMP_ONE,
{
}

impl ADSR {
    /// The envelope's numeric invariant: the sustain level and the
    /// current level lie inside `[0, AMP_ONE]`, Idle is silent, Sustain
    /// holds the sustain level, Decay never undershoots it, and the
    /// precomputed rates match their stage spans.
    pub open spec fn wf(self) -> bool {
        &&& 0 <= self.sustain_level <= AMP_ONE
        &&& 0 <= self.level <= AMP_ONE
        &&& self.state == EnvState::Idle ==> self.level == 0
        &&& self.state == EnvState::Sustain ==> self.level == self.sustain_level
        &&& self.state == EnvState::Decay ==> self.level >= self.sustain_level
        &&& self.attack_inc == spec_rate(AMP_ONE as int, self.attack_samples as int)
        &&& 1 <= self.attack_inc <= AMP_ONE
        &&& self.decay_dec == spec_rate(AMP_ONE - self.sustain_level, self.decay_samples as int)
        &&& 0 <= self.decay_dec <= AMP_ONE
        &&& 0 <= self.release_dec <= AMP_ONE
        &&& self.release_samples < 0x4000000000000000
    }

    /// Builds an idle envelope with the attack and decay rates
    /// precomputed from durations given in milliseconds.
    pub fn new(sample_rate: u32, attack_ms: u32, decay_ms: u32, sustain_level: i64, release_ms: u32) -> (r:
        ADSR)
        requires
            sample_rate > 0,
            0 <= sustain_level <= AMP_ONE,
        ensures
            r.wf(),
            r.state == EnvState::Idle,
            r.level == 0,
            r.release_dec == 0,
            r.sustain_level == sustain_level,
            r.attack_samples == attack_ms as int * sample_rate as int / 1000,
            r.decay_samples == decay_ms as int * sample_rate as int / 1000,
            r.release_samples == release_ms as int * sample_rate as int / 1000,
            r.attack_inc == spec_rate(AMP_ONE as int, r.attack_samples as int),
            r.decay_dec == spec_rate(AMP_ONE - sustain_level, r.decay_samples as int),
    {
        proof {
            assert(attack_ms as int * sample_rate as int <= 4294967295int * 4294967295 && decay_ms as int
                * sample_rate as int <= 4294967295int * 4294967295 && release_ms as int
                * sample_rate as int <= 4294967295int * 4294967295) by (nonlinear_arith)
                requires
                    attack_ms <= 4294967295,
                    decay_ms <= 4294967295,
                    release_ms <= 4294967295,
                    sample_rate <= 4294967295,
            ;
        }
        let attack_samples: u64 = attack_ms as u64 * sample_rate as u64 / 1000;
        let decay_samples: u64 = decay_ms as u64 * sample_rate as u64 / 1000;
        let release_samples: u64 = release_ms as u64 * sample_rate as u64 / 1000;
        proof {
            lemma_rate_bounds(AMP_ONE as int, attack_samples as int);
            lemma_rate_bounds(AMP_ONE - sustain_level, decay_samples as int);
        }
        let attack_inc: i64 = if attack_samples == 0 {
            AMP_ONE
        } else {
            (((AMP_ONE as u64) + attack_samples - 1) / attack_samples) as i64
        };
        let span: u64 = (AMP_ONE - sustain_level) as u64;
        let decay_dec: i64 = if decay_samples == 0 {
            AMP_ONE - sustain_level
        } else {
            ((span + decay_samples - 1) / decay_samples) as i64
        };
        ADSR {
            attack_samples,
            decay_samples,
            release_samples,
            sustain_level,
            state: EnvState::Idle,
            level: 0,
            attack_inc,
            decay_dec,
            release_dec: 0,
        }
    }

    /// Starts a note: the envelope re-enters Attack from any stage and
    /// the level restarts at zero.
    pub fn note_on(&mut self)
        requires
            old(self).wf(),
        ensures
            final(self).wf(),
            *final(self) == spec_env_note_on(*old(self)),
    {
        self.state = EnvState::Attack;
        self.level = 0;
    }

    /// Ends a note: a sounding stage other than Release enters Release,
    /// falling from the current level to zero over the release span;
    /// Idle and Release stages are unaffected.
    pub fn note_off(&mut self)
        requires
            old(self).wf(),
        ensures
            final(self).wf(),
            *final(self) == spec_env_note_off(*old(self)),
    {
        if !(self.state == EnvState::Idle) && !(self.state == EnvState::Release) {
            proof {
                lemma_rate_bounds(self.level as int, self.release_samples as int);
            }
            self.state = EnvState::Release;
            self.release_dec = if self.release_samples == 0 {
                self.level
            } else {
                (((self.level as u64) + self.release_samples - 1) / self.release_samples) as i64
            };
        }
    }

    /// Advances the state machine by exactly one sample and returns the
    /// post-step level. The level moves monotonically within each stage:
    /// up during Attack, down during Decay and Release, held during
    /// Sustain and Idle.
    pub fn next_amplitude(&mut self) -> (amp: i64)
        requires
            old(self).wf(),
        ensures
            final(self).wf(),
            *final(self) == spec_env_step(*old(self)),
            amp == final(self).level,
            0 <= amp <= AMP_ONE,
            old(self).state == EnvState::Attack ==> final(self).level >= old(self).level,
            old(self).state == EnvState::Decay ==> final(self).level <= old(self).level,
            old(self).state == EnvState::Release ==> final(self).level <= old(self).level,
            old(self).state == EnvState::Sustain ==> *final(self) == *old(self),
            old(self).state == EnvState::Idle ==> *final(self) == *old(self) && amp == 0,
    {
        match self.state {
            EnvState::Idle => 0,
            EnvState::Attack => {
                self.level = self.level + self.attack_inc;
                if self.level >= AMP_ONE {
                    self.level = AMP_ONE;
                    self.state = EnvState::Decay;
                }
                self.level
            },
            EnvState::Decay => {
                self.level = self.level - self.decay_dec;
                if self.level <= self.sustain_level {
                    self.level = self.sustain_level;
                    self.state = EnvState::Sustain;
                }
                self.level
            },
            EnvState::Sustain => self.sustain_level,
            EnvState::Release => {
                self.level = self.level - self.release_dec;
                if self.level <= 0 {
                    self.level = 0;
                    self.state = EnvState::Idle;
                }
                self.level
            },
        }
    }

    /// True exactly when the envelope has fully closed.
    pub fn is_idle(&self) -> (r: bool)
        ensures
            r == (self.state == EnvState::Idle),
    {
        self.state == EnvState::Idle
    }
}

} // verus!
