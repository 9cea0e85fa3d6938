//! The operator: a phase accumulator driving a waveform, scaled by an
//! envelope, at a multiple of the voice's base frequency.
use vstd::prelude::*;
use crate::{ConfigError, GAIN_ONE, MIN_SAMPLE_RATE, SAMPLE_ONE};
use crate::envelope::{Envelope, EnvelopeDefinition, enter, gain_of, released};
use crate::tables::Tables;
use crate::waveform::{Waveform, wave_value, PHASE_PERIOD};

verus! {

/// Largest frequency multiplier index.
pub const FREQUENCY_MULTIPLIER_MAX: u8 = 20;

/// Fixed-point scale of the detune factor (parts per billion).
pub const DETUNE_SCALE: u64 = 1000000000;

/// Detune per cent upwards, per billion: `(2^(1/12) - 1) / 100`.
pub const DETUNE_UP_PER_CENT: u64 = 594631;

/// Detune per cent downwards, per billion: `(1 - 2^(-1/12)) / 100`.
pub const DETUNE_DOWN_PER_CENT: u64 = 561257;

/// Largest detune in cents, either way.
pub const DETUNE_MAX: i8 = 100;

/// The frequency ratio of multiplier index `i`, as numerator and denominator:
/// index 6 is 1:1, index 11 is 2:1, index 16 is 4:1. Between them the table
/// steps through the just intervals 1, 5/4, 4/3, 3/2, 5/3, 2 and their
/// doubles; below 1:1 it takes the halves of that octave down to 1/2, with
/// 1/16 as the lowest ratio; above 4:1 come 5, 6, 8 and 12.
pub open spec fn ratio_of(i: u8) -> (u64, u64) {
    if i == 0 {
        (1, 16)
    } else if i == 1 {
        (1, 2)
    } else if i == 2 {
        (5, 8)
    } else if i == 3 {
        (2, 3)
    } else if i == 4 {
        (3, 4)
    } else if i == 5 {
        (5, 6)
    } else if i == 6 {
        (1, 1)
    } else if i == 7 {
        (5, 4)
    } else if i == 8 {
        (4, 3)
    } else if i == 9 {
        (3, 2)
    } else if i == 10 {
        (5, 3)
    } else if i == 11 {
        (2, 1)
    } else if i == 12 {
        (5, 2)
    } else if i == 13 {
        (8, 3)
    } else if i == 14 {
        (3, 1)
    } else if i == 15 {
        (10, 3)
    } else if i == 16 {
        (4, 1)
    } else if i == 17 {
        (5, 1)
    } else if i == 18 {
        (6, 1)
    } else if i == 19 {
        (8, 1)
    } else {
        (12, 1)
    }
}

/// A carrier:modulator frequency ratio, chosen by index `0..=20`.
#[derive(Clone, Copy, Debug, PartialEq, Eq, Structural)]
pub struct FrequencyMultiplier {
    pub index: u8,
}

impl FrequencyMultiplier {
    pub open spec fn wf(&self) -> bool {
        self.index <= FREQUENCY_MULTIPLIER_MAX
    }

    /// The multiplier with index `index`; an index above 20 is refused.
    pub fn new(index: u8) -> (r: Result<Self, ConfigError>)
        ensures
            index <= FREQUENCY_MULTIPLIER_MAX <==> r is Ok,
            r is Ok ==> r->Ok_0.index == index && r->Ok_0.wf(),
            r is Err ==> r->Err_0 == ConfigError::FrequencyMultiplier,
    {
        if index <= FREQUENCY_MULTIPLIER_MAX {
            Ok(FrequencyMultiplier { index })
        } else {
            Err(ConfigError::FrequencyMultiplier)
        }
    }

    /// The 1:1 ratio.
    pub fn one() -> (r: Self)
        ensures
            r.index == 6,
            r.wf(),
    {
        FrequencyMultiplier { index: 6 }
    }

    /// The ratio as numerator and denominator.
    pub fn ratio(&self) -> (r: (u64, u64))
        requires
            self.wf(),
        ensures
            r == ratio_of(self.index),
            1 <= r.0 <= 12,
            1 <= r.1 <= 16,
    {
        match self.index {
            0 => (1, 16),
            1 => (1, 2),
            2 => (5, 8),
            3 => (2, 3),
            4 => (3, 4),
            5 => (5, 6),
            6 => (1, 1),
            7 => (5, 4),
            8 => (4, 3),
            9 => (3, 2),
            10 => (5, 3),
            11 => (2, 1),
            12 => (5, 2),
            13 => (8, 3),
            14 => (3, 1),
            15 => (10, 3),
            16 => (4, 1),
            17 => (5, 1),
            18 => (6, 1),
            19 => (8, 1),
            _ => (12, 1),
        }
    }

    /// `frequency` (in millihertz) times the ratio, rounded down.
    pub fn multiply(&self, frequency: u32) -> (r: u64)
        requires
            self.wf(),
        ensures
            r == frequency as int * ratio_of(self.index).0 as int / ratio_of(self.index).1 as int,
    {
        let (num, den) = self.ratio();
        frequency as u64 * num / den
    }
}

/// The detune factor for `detune` cents, in parts per billion.
pub open spec fn detune_factor(detune: i8) -> int {
    if detune >= 0 {
        DETUNE_SCALE + detune as int * DETUNE_UP_PER_CENT
    } else {
        DETUNE_SCALE + detune as int * DETUNE_DOWN_PER_CENT
    }
}

/// The factor by which `detune` cents scale the frequency, in parts per
/// billion: `1 + d/100 · 0.059463095` upwards, `1 + d/100 · 0.0561257`
/// downwards.
pub fn detune_as_multiplier(detune: i8) -> (r: u64)
    requires
        -DETUNE_MAX <= detune <= DETUNE_MAX,
    ensures
        r == detune_factor(detune),
        r <= DETUNE_SCALE + 100 * DETUNE_UP_PER_CENT,
        r >= DETUNE_SCALE - 100 * DETUNE_DOWN_PER_CENT,
{
    if detune >= 0 {
        DETUNE_SCALE + detune as u64 * DETUNE_UP_PER_CENT
    } else {
        DETUNE_SCALE - (-(detune as i64)) as u64 * DETUNE_DOWN_PER_CENT
    }
}

/// The numerator of the phase increment: frequency in millihertz times the
/// ratio and detune numerators, times one period.
pub open spec fn increment_numerator(base: u32, m: FrequencyMultiplier, detune: i8) -> int {
    base as int * ratio_of(m.index).0 as int * detune_factor(detune) * PHASE_PERIOD as int
}

/// The denominator of the phase increment: ratio denominator, detune scale,
/// millihertz per hertz and the sample rate.
pub open spec fn increment_denominator(sample_rate: u32, m: FrequencyMultiplier) -> int {
    ratio_of(m.index).1 as int * DETUNE_SCALE as int * 1000 * sample_rate as int
}

/// The phase advance per sample, `frequency · 2^32 / sample_rate`, of an
/// operator at base frequency `base` millihertz, wrapped to one period.
pub open spec fn phase_increment(base: u32, sample_rate: u32, m: FrequencyMultiplier, detune: i8) -> u32 {
    ((increment_numerator(base, m, detune) / increment_denominator(sample_rate, m)) % PHASE_PERIOD as int) as u32
}

/// `true` when the engine supports `sample_rate`: at least `MIN_SAMPLE_RATE`.
pub open spec fn sample_rate_ok(sample_rate: u32) -> bool {
    MIN_SAMPLE_RATE <= sample_rate
}

/// The phase advance per sample, as `phase_increment` states it.
pub fn get_delta_p(base: u32, sample_rate: u32, m: FrequencyMultiplier, detune: i8) -> (r: u32)
    requires
        sample_rate_ok(sample_rate),
        m.wf(),
        -DETUNE_MAX <= detune <= DETUNE_MAX,
    ensures
        r == phase_increment(base, sample_rate, m, detune),
{
    let (num, den) = m.ratio();
    let factor = detune_as_multiplier(detune);
    proof {
        assert(base as int * num as int <= 0xffff_ffff * 12) by (nonlinear_arith)
            requires
                base <= 0xffff_ffff,
                num <= 12,
        ;
        assert(base as int * num as int * factor as int <= 0xffff_ffff * 12 * 2000000000) by (
        nonlinear_arith)
            requires
                base as int * num as int <= 0xffff_ffff * 12,
                factor <= 2000000000,
                base as int * num as int >= 0,
        ;
        assert(base as int * num as int * factor as int * PHASE_PERIOD as int <= 0xffff_ffff * 12
            * 2000000000 * PHASE_PERIOD) by (nonlinear_arith)
            requires
                base as int * num as int * factor as int <= 0xffff_ffff * 12 * 2000000000,
                base as int * num as int * factor as int >= 0,
        ;
        assert(den as int * DETUNE_SCALE as int * 1000 * sample_rate as int >= 1) by (nonlinear_arith)
            requires
                den >= 1,
                sample_rate >= 1,
        ;
        assert(den as int * DETUNE_SCALE as int * 1000 * sample_rate as int <= 16 * DETUNE_SCALE
            * 1000 * 0xffff_ffff) by (nonlinear_arith)
            requires
                den <= 16,
                sample_rate <= 0xffff_ffff,
                den >= 1,
        ;
    }
    let numerator: u128 = base as u128 * num as u128 * factor as u128 * 0x1_0000_0000u128;
    let denominator: u128 = den as u128 * DETUNE_SCALE as u128 * 1000 * sample_rate as u128;
    ((numerator / denominator) % 0x1_0000_0000u128) as u32
}

/// `sample · gain / GAIN_ONE`, rounded towards zero.
pub open spec fn scaled(sample: int, gain: int) -> int {
    if sample >= 0 {
        sample * gain / GAIN_ONE as int
    } else {
        -((-sample) * gain / GAIN_ONE as int)
    }
}

/// Applies `gain` (at most unity) to `sample`.
pub fn apply_gain(sample: i32, gain: u32) -> (r: i32)
    requires
        -SAMPLE_ONE <= sample <= SAMPLE_ONE,
        gain <= GAIN_ONE,
    ensures
        r == scaled(sample as int, gain as int),
        -SAMPLE_ONE <= r <= SAMPLE_ONE,
{
    let magnitude: i64 = if sample >= 0 {
        sample as i64
    } else {
        -(sample as i64)
    };
    proof {
        assert(magnitude as int * gain as int <= SAMPLE_ONE as int * GAIN_ONE as int) by (nonlinear_arith)
            requires
                0 <= magnitude <= SAMPLE_ONE,
                gain <= GAIN_ONE,
        ;
        assert(magnitude as int * gain as int / GAIN_ONE as int <= SAMPLE_ONE) by (nonlinear_arith)
            requires
                magnitude as int * gain as int <= SAMPLE_ONE as int * GAIN_ONE as int,
        ;
        assert(magnitude as int * gain as int >= 0) by (nonlinear_arith)
            requires
                0 <= magnitude,
        ;
    }
    let scaled_magnitude: i64 = magnitude * gain as i64 / GAIN_ONE as i64;
    if sample >= 0 {
        scaled_magnitude as i32
    } else {
        -(scaled_magnitude as i32)
    }
}

/// The parameters of an operator.
#[derive(Clone, Copy, Debug, PartialEq, Eq, Structural)]
pub struct OperatorDefinition {
    pub waveform: Waveform,
    pub frequency_multiplier: FrequencyMultiplier,
    /// Cents, `-100..=100`.
    pub detune: i8,
    pub envelope: EnvelopeDefinition,
}

impl OperatorDefinition {
    pub open spec fn wf(&self) -> bool {
        &&& self.frequency_multiplier.wf()
        &&& -DETUNE_MAX <= self.detune <= DETUNE_MAX
    }

    /// An operator definition; a detune outside `-100..=100` is refused.
    pub fn new(
        waveform: Waveform,
        frequency_multiplier: FrequencyMultiplier,
        detune: i8,
        envelope: EnvelopeDefinition,
    ) -> (r: Result<Self, ConfigError>)
        requires
            frequency_multiplier.wf(),
        ensures
            (-DETUNE_MAX <= detune <= DETUNE_MAX) <==> r is Ok,
            r is Ok ==> r->Ok_0 == (OperatorDefinition { waveform, frequency_multiplier, detune, envelope })
                && r->Ok_0.wf(),
            r is Err ==> r->Err_0 == ConfigError::Detune,
    {
        if -DETUNE_MAX <= detune && detune <= DETUNE_MAX {
            Ok(OperatorDefinition { waveform, frequency_multiplier, detune, envelope })
        } else {
            Err(ConfigError::Detune)
        }
    }

    /// A sine at 1:1 with no detune and the given envelope.
    pub fn sine(envelope: EnvelopeDefinition) -> (r: Self)
        ensures
            r.wf(),
            r.waveform == Waveform::Sine,
            r.frequency_multiplier.index == 6,
            r.detune == 0,
            r.envelope == envelope,
    {
        OperatorDefinition {
            waveform: Waveform::Sine,
            frequency_multiplier: FrequencyMultiplier::one(),
            detune: 0,
            envelope,
        }
    }
}

/// An operator under a new definition: same phase, its envelope keeping its
/// attenuation and phase with the cadence reloaded from the new rates.
pub open spec fn redefined(op: OperatorInstance, definition: OperatorDefinition) -> OperatorInstance {
    OperatorInstance {
        definition,
        envelope: enter(Envelope { definition: definition.envelope, ..op.envelope }, op.envelope.phase),
        clock: op.clock,
    }
}

/// A running operator: its definition, envelope and phase accumulator.
#[derive(Clone, Copy, Debug)]
pub struct OperatorInstance {
    pub definition: OperatorDefinition,
    pub envelope: Envelope,
    /// The phase accumulator; `2^32` is one period.
    pub clock: u32,
}

/// The operator after one sample: its accumulator advanced by the phase
/// increment.
pub open spec fn advanced(op: OperatorInstance, base: u32, sample_rate: u32) -> OperatorInstance {
    OperatorInstance {
        clock: ((op.clock as int + phase_increment(
            base,
            sample_rate,
            op.definition.frequency_multiplier,
            op.definition.detune,
        ) as int) % PHASE_PERIOD as int) as u32,
        ..op
    }
}

/// The sample of the operator after advancing: its waveform at the new phase
/// under `modulation`, times its envelope gain.
#[verifier::opaque]
pub open spec fn operator_sample(
    op: OperatorInstance,
    t: Tables,
    base: u32,
    sample_rate: u32,
    modulation: u32,
    noise: i32,
) -> int {
    let next = advanced(op, base, sample_rate);
    scaled(
        wave_value(op.definition.waveform, t.quarter_sine@, next.clock, modulation, noise),
        gain_of(op.envelope, t),
    )
}

impl OperatorInstance {
    pub open spec fn wf(&self) -> bool {
        &&& self.definition.wf()
        &&& self.envelope.wf()
        &&& self.envelope.definition == self.definition.envelope
    }

    /// A silent operator at phase 0.
    pub fn new(definition: OperatorDefinition) -> (r: Self)
        requires
            definition.wf(),
        ensures
            r.wf(),
            r.definition == definition,
            r.envelope == released(definition.envelope),
            r.clock == 0,
    {
        OperatorInstance { definition, envelope: Envelope::new(definition.envelope), clock: 0 }
    }

    /// Replaces the definition; the phase and the envelope's attenuation and
    /// phase carry over.
    pub fn set_definition(&mut self, definition: OperatorDefinition)
        requires
            old(self).wf(),
            definition.wf(),
        ensures
            final(self).wf(),
            *final(self) == redefined(*old(self), definition),
    {
        self.definition = definition;
        self.envelope.set_definition(definition.envelope);
    }

    /// Advances the phase by one sample and returns the waveform at the new
    /// phase under `modulation` times the envelope gain.
    pub fn func(&mut self, tables: &Tables, base: u32, sample_rate: u32, modulation: u32, noise: i32) -> (r: i32)
        requires
            old(self).wf(),
            tables.wf(),
            sample_rate_ok(sample_rate),
            -SAMPLE_ONE <= noise <= SAMPLE_ONE,
        ensures
            *final(self) == advanced(*old(self), base, sample_rate),
            r == operator_sample(*old(self), *tables, base, sample_rate, modulation, noise),
            -SAMPLE_ONE <= r <= SAMPLE_ONE,
    {
        let delta = get_delta_p(base, sample_rate, self.definition.frequency_multiplier, self.definition.detune);
        self.clock = self.clock.wrapping_add(delta);
        let wave = self.definition.waveform.func(tables, self.clock, modulation, noise);
        let gain = self.envelope.attenuation(tables);
        proof {
            reveal(operator_sample);
        }
        apply_gain(wave, gain)
    }
}

/// A 1:1 operator without detune whose frequency divides the sample rate
/// into `n >= 2` samples per period advances by `2^32 / n` per sample,
/// rounded down: after `n` samples its phase is back where it started, short
/// by fewer than `n` units (less than one unit per sample).
pub proof fn lemma_phase_period(base: u32, sample_rate: u32, n: int)
    requires
        sample_rate_ok(sample_rate),
        n >= 2,
        n * base == 1000 * sample_rate,
    ensures
        phase_increment(base, sample_rate, FrequencyMultiplier { index: 6 }, 0) == PHASE_PERIOD as int / n,
        PHASE_PERIOD - n < n * phase_increment(base, sample_rate, FrequencyMultiplier { index: 6 }, 0) <= PHASE_PERIOD,
{
    let m = FrequencyMultiplier { index: 6 };
    let p = PHASE_PERIOD as int;
    let c = base as int * DETUNE_SCALE as int;
    assert(base > 0) by (nonlinear_arith)
        requires
            n * base == 1000 * sample_rate,
            sample_rate >= 8000,
            n >= 2,
    ;
    assert(c > 0) by (nonlinear_arith)
        requires
            c == base as int * DETUNE_SCALE as int,
            base > 0,
    ;
    assert(increment_numerator(base, m, 0) == p * c) by (nonlinear_arith)
        requires
            increment_numerator(base, m, 0) == base as int * 1 * DETUNE_SCALE as int * p,
            c == base as int * DETUNE_SCALE as int,
    ;
    assert(increment_denominator(sample_rate, m) == c * n) by (nonlinear_arith)
        requires
            increment_denominator(sample_rate, m) == 1 * DETUNE_SCALE as int * 1000 * sample_rate as int,
            c == base as int * DETUNE_SCALE as int,
            n * base == 1000 * sample_rate,
    ;
    vstd::arithmetic::div_mod::lemma_div_denominator(p * c, c, n);
    vstd::arithmetic::div_mod::lemma_div_multiples_vanish(p, c);
    assert((p * c) / c == p) by {
        assert(c * p == p * c) by (nonlinear_arith);
    }
    let q = p / n;
    vstd::arithmetic::div_mod::lemma_fundamental_div_mod(p, n);
    assert(0 <= q < p) by (nonlinear_arith)
        requires
            q == p / n,
            n >= 2,
            p > 0,
    ;
    vstd::arithmetic::div_mod::lemma_small_mod(q as nat, p as nat);
}

} // verus!
