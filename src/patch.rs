//! Patches and voices.
//!
//! A patch definition is four operator definitions, an algorithm and a
//! feedback level. A voice binds a patch to a base frequency and a key state
//! and produces one sample at a time:
//!
//! 1. operator 0 runs with its own averaged feedback as modulation;
//! 2. operators 1, 2, 3 run in order, each modulated by what the algorithm
//!    routes into it, at `AMPLIFICATION` times the source's stage value;
//! 3. the carriers are summed (each stage carries `AMPLIFICATION` times its
//!    operator, and the sum is divided by it again, so the output is the sum
//!    of the carriers' operator samples);
//! 4. every envelope advances by one sample.
use vstd::prelude::*;
use crate::{AMPLIFICATION, ConfigError, SAMPLE_ONE};
use crate::algorithm::{Algorithm, FeedbackLevel, ModulatedBy, feedback_multiplier, is_carrier, modulator_of};
use crate::envelope::{EnvelopeDefinition, EnvelopePhase, enter, released, tick_model};
use crate::operator::{
    OperatorDefinition, OperatorInstance, advanced, operator_sample, redefined, sample_rate_ok,
};
use crate::tables::Tables;
use crate::waveform::{Waveform, PHASE_PERIOD};

verus! {

/// Phase units per sample unit of modulation: one full-scale sample
/// (`SAMPLE_ONE`) modulates by one radian, `2^32 / (2π · SAMPLE_ONE)`.
pub const PHASE_PER_MODULATION_UNIT: i64 = 20861;

/// The parameters of a patch, shared by the voices that play it.
#[derive(Clone, Copy, Debug)]
pub struct PatchDefinition {
    pub operators: [OperatorDefinition; 4],
    pub algorithm: Algorithm,
    pub feedback: FeedbackLevel,
    /// Samples per second of the voices that play this patch.
    pub sample_rate: u32,
}

impl PatchDefinition {
    pub open spec fn wf(&self) -> bool {
        &&& sample_rate_ok(self.sample_rate)
        &&& forall|i: int| 0 <= i < 4 ==> #[trigger] self.operators@[i].wf()
    }

    /// The starting patch: four 1:1 sines, algorithm 0, no feedback; the
    /// last operator at full level, the others silent. A sample rate below
    /// `MIN_SAMPLE_RATE` is refused.
    pub fn new(sample_rate: u32) -> (r: Result<Self, ConfigError>)
        ensures
            sample_rate_ok(sample_rate) <==> r is Ok,
            r is Ok ==> {
                &&& r->Ok_0.wf()
                &&& r->Ok_0.sample_rate == sample_rate
                &&& r->Ok_0.algorithm == Algorithm::Zero
                &&& r->Ok_0.feedback == FeedbackLevel::Zero
                &&& forall|i: int|
                    0 <= i < 4 ==> (#[trigger] r->Ok_0.operators@[i]).waveform == Waveform::Sine
                        && r->Ok_0.operators@[i].frequency_multiplier.index == 6 && r->Ok_0.operators@[i].detune == 0
                &&& forall|i: int| 0 <= i < 3 ==> (#[trigger] r->Ok_0.operators@[i]).envelope == silent_envelope()
                &&& r->Ok_0.operators@[3].envelope == full_level_envelope()
            },
            r is Err ==> r->Err_0 == ConfigError::SampleRate,
    {
        if sample_rate < crate::MIN_SAMPLE_RATE {
            return Err(ConfigError::SampleRate);
        }
        let quiet = OperatorDefinition::sine(EnvelopeDefinition::default());
        let loud = OperatorDefinition::sine(EnvelopeDefinition::new(255, 255, 0, 255, 0, 255));
        let r = PatchDefinition {
            operators: [quiet, quiet, quiet, loud],
            algorithm: Algorithm::Zero,
            feedback: FeedbackLevel::Zero,
            sample_rate,
        };
        assert(forall|i: int| 0 <= i < 4 ==> #[trigger] r.operators@[i].wf());
        assert(forall|i: int|
            0 <= i < 4 ==> (#[trigger] r.operators@[i]).waveform == Waveform::Sine
                && r.operators@[i].frequency_multiplier.index == 6 && r.operators@[i].detune == 0);
        assert(forall|i: int| 0 <= i < 3 ==> (#[trigger] r.operators@[i]).envelope == silent_envelope());
        Ok(r)
    }

    /// Fresh operator instances for this definition: phase 0, released.
    pub fn generate_new_operators(&self) -> (r: [OperatorInstance; 4])
        requires
            self.wf(),
        ensures
            forall|i: int| 0 <= i < 4 ==> #[trigger] r@[i] == fresh_operator(self.operators@[i]),
    {
        let r = [
            OperatorInstance::new(self.operators[0]),
            OperatorInstance::new(self.operators[1]),
            OperatorInstance::new(self.operators[2]),
            OperatorInstance::new(self.operators[3]),
        ];
        assert(forall|i: int| 0 <= i < 4 ==> #[trigger] r@[i] == fresh_operator(self.operators@[i]));
        r
    }
}

/// The default envelope: quietest level, fastest attack and release, no
/// decay, top sustain level.
pub open spec fn silent_envelope() -> EnvelopeDefinition {
    EnvelopeDefinition {
        total_level: 0,
        sustain_level: 255,
        attack_rate: 255,
        decay_attack_rate: 0,
        decay_sustain_rate: 0,
        release_rate: 255,
    }
}

/// Full level, fastest attack and release, no decay, top sustain level.
pub open spec fn full_level_envelope() -> EnvelopeDefinition {
    EnvelopeDefinition {
        total_level: 255,
        sustain_level: 255,
        attack_rate: 255,
        decay_attack_rate: 0,
        decay_sustain_rate: 0,
        release_rate: 255,
    }
}

/// A new operator instance of `d`: phase 0, released, silent.
pub open spec fn fresh_operator(d: OperatorDefinition) -> OperatorInstance {
    OperatorInstance { definition: d, envelope: released(d.envelope), clock: 0 }
}

/// A new, inactive voice of `d` at `base` millihertz.
pub open spec fn fresh_voice(d: PatchDefinition, base: u32) -> PatchInstance {
    PatchInstance {
        definition: d,
        operators: [
            fresh_operator(d.operators@[0]),
            fresh_operator(d.operators@[1]),
            fresh_operator(d.operators@[2]),
            fresh_operator(d.operators@[3]),
        ],
        active: false,
        clock: 0,
        base_frequency: base,
        prev_feedback1: 0,
        prev_feedback2: 0,
    }
}

/// A voice: a patch played at a base frequency.
#[derive(Clone, Copy, Debug)]
pub struct PatchInstance {
    pub definition: PatchDefinition,
    pub operators: [OperatorInstance; 4],
    /// Whether the key is down.
    pub active: bool,
    /// Samples produced so far, wrapping.
    pub clock: u64,
    /// Base frequency in millihertz.
    pub base_frequency: u32,
    /// Operator 0's sample one sample ago.
    pub prev_feedback1: i32,
    /// Operator 0's sample two samples ago.
    pub prev_feedback2: i32,
}

/// The envelope phase a key event starts.
pub open spec fn key_phase(active: bool) -> EnvelopePhase {
    if active {
        EnvelopePhase::Attack
    } else {
        EnvelopePhase::Release
    }
}

/// The voice with its key set to `active`: on a change every envelope enters
/// attack (key down) or release (key up); otherwise nothing changes.
pub open spec fn activated(v: PatchInstance, active: bool) -> PatchInstance {
    if v.active == active {
        v
    } else {
        let ops = v.operators@;
        PatchInstance {
            active,
            operators: [
                OperatorInstance { envelope: enter(ops[0].envelope, key_phase(active)), ..ops[0] },
                OperatorInstance { envelope: enter(ops[1].envelope, key_phase(active)), ..ops[1] },
                OperatorInstance { envelope: enter(ops[2].envelope, key_phase(active)), ..ops[2] },
                OperatorInstance { envelope: enter(ops[3].envelope, key_phase(active)), ..ops[3] },
            ],
            ..v
        }
    }
}

/// `x` wrapped to one phase period.
pub open spec fn wrap(x: int) -> u32 {
    (x % PHASE_PERIOD as int) as u32
}

/// The modulation of operator 0: the sum of the last two operator-0 samples
/// times half the feedback multiplier, that is their average times the
/// multiplier.
pub open spec fn feedback_modulation(v: PatchInstance) -> u32 {
    wrap(
        (v.prev_feedback1 as int + v.prev_feedback2 as int) * (feedback_multiplier(v.definition.feedback)
            / 2) as int,
    )
}

/// The phase modulation from a source over the stage values so far: a
/// single source's stage value, or the sum of two, times `AMPLIFICATION`.
pub open spec fn source_modulation(src: ModulatedBy, stages: Seq<int>) -> u32 {
    let value = match src {
        ModulatedBy::Nothing => 0,
        ModulatedBy::Single(j) => stages[j as int] * AMPLIFICATION,
        ModulatedBy::Double(j, k) => (stages[j as int] + stages[k as int]) * AMPLIFICATION,
    };
    wrap(value * PHASE_PER_MODULATION_UNIT)
}

/// The four operator samples of one voice sample, in evaluation order.
/// Operator 0's stage value is its sample; the others' is `AMPLIFICATION`
/// times theirs.
pub open spec fn raw_samples(v: PatchInstance, t: Tables, noise: Seq<i32>) -> Seq<int> {
    let a = v.definition.algorithm;
    let base = v.base_frequency;
    let sr = v.definition.sample_rate;
    let ops = v.operators@;
    let r0 = operator_sample(ops[0], t, base, sr, feedback_modulation(v), noise[0]);
    let s0 = r0;
    let r1 = operator_sample(ops[1], t, base, sr, source_modulation(modulator_of(a, 1), seq![s0, 0, 0, 0]), noise[1]);
    let s1 = r1 * AMPLIFICATION;
    let r2 = operator_sample(ops[2], t, base, sr, source_modulation(modulator_of(a, 2), seq![s0, s1, 0, 0]), noise[2]);
    let s2 = r2 * AMPLIFICATION;
    let r3 = operator_sample(ops[3], t, base, sr, source_modulation(modulator_of(a, 3), seq![s0, s1, s2, 0]), noise[3]);
    seq![r0, r1, r2, r3]
}

/// `x` if operator `i` is a carrier of `a`, else 0.
pub open spec fn carried(a: Algorithm, i: int, x: int) -> int {
    if is_carrier(a, i) {
        x
    } else {
        0
    }
}

/// The sample a voice produces: the sum of its carriers' operator samples.
pub open spec fn voice_sample(v: PatchInstance, t: Tables, noise: Seq<i32>) -> int {
    let r = raw_samples(v, t, noise);
    let a = v.definition.algorithm;
    carried(a, 0, r[0]) + carried(a, 1, r[1]) + carried(a, 2, r[2]) + carried(a, 3, r[3])
}

/// An operator after one sample: phase advanced, envelope ticked.
pub open spec fn next_operator(op: OperatorInstance, base: u32, sample_rate: u32) -> OperatorInstance {
    OperatorInstance { envelope: tick_model(op.envelope), ..advanced(op, base, sample_rate) }
}

/// The voice after producing one sample.
pub open spec fn voice_next(v: PatchInstance, t: Tables, noise: Seq<i32>) -> PatchInstance {
    let base = v.base_frequency;
    let sr = v.definition.sample_rate;
    let ops = v.operators@;
    PatchInstance {
        operators: [
            next_operator(ops[0], base, sr),
            next_operator(ops[1], base, sr),
            next_operator(ops[2], base, sr),
            next_operator(ops[3], base, sr),
        ],
        prev_feedback1: raw_samples(v, t, noise)[0] as i32,
        prev_feedback2: v.prev_feedback1,
        clock: ((v.clock as int + 1) % 0x1_0000_0000_0000_0000) as u64,
        ..v
    }
}

/// Every noise value lies in `-SAMPLE_ONE..=SAMPLE_ONE`.
pub open spec fn noise_ok(noise: Seq<i32>) -> bool {
    &&& noise.len() == 4
    &&& forall|i: int| 0 <= i < 4 ==> -SAMPLE_ONE <= #[trigger] noise[i] <= SAMPLE_ONE
}

/// `true` when no operator of the voice draws noise.
pub open spec fn noiseless(v: PatchInstance) -> bool {
    forall|i: int| 0 <= i < 4 ==> (#[trigger] v.operators@[i]).definition.waveform != Waveform::Noise
}

/// `x` wrapped to one phase period.
fn wrap_phase(x: i64) -> (r: u32)
    requires
        -0x4000_0000_0000_0000 <= x <= 0x4000_0000_0000_0000,
    ensures
        r == wrap(x as int),
{
    let p: u64 = 0x1_0000_0000;
    if x >= 0 {
        ((x as u64) % p) as u32
    } else {
        let y: u64 = ((-x) as u64) % p;
        proof {
            let a = -x as int;
            let q = a / (p as int);
            vstd::arithmetic::div_mod::lemma_fundamental_div_mod(a, p as int);
            if y != 0 {
                vstd::arithmetic::div_mod::lemma_fundamental_div_mod_converse(
                    x as int,
                    p as int,
                    -q - 1,
                    p - y,
                );
            } else {
                vstd::arithmetic::div_mod::lemma_fundamental_div_mod_converse(x as int, p as int, -q, 0);
            }
        }
        if y == 0 {
            0
        } else {
            (p - y) as u32
        }
    }
}

/// The phase modulation from `src` over the stage values so far.
fn source_phase(src: ModulatedBy, stages: [i64; 4]) -> (r: u32)
    requires
        forall|i: int| 0 <= i < 4 ==> -32 * SAMPLE_ONE <= #[trigger] stages@[i] <= 32 * SAMPLE_ONE,
        match src {
            ModulatedBy::Nothing => true,
            ModulatedBy::Single(j) => j < 4,
            ModulatedBy::Double(j, k) => j < 4 && k < 4,
        },
    ensures
        r == source_modulation(src, seq![stages@[0] as int, stages@[1] as int, stages@[2] as int, stages@[3] as int]),
{
    let ghost s = seq![stages@[0] as int, stages@[1] as int, stages@[2] as int, stages@[3] as int];
    let value: i64 = match src {
        ModulatedBy::Nothing => 0,
        ModulatedBy::Single(j) => stages[j] * AMPLIFICATION,
        ModulatedBy::Double(j, k) => (stages[j] + stages[k]) * AMPLIFICATION,
    };
    assert(s[0] == stages@[0] && s[1] == stages@[1] && s[2] == stages@[2] && s[3] == stages@[3]);
    wrap_phase(value * PHASE_PER_MODULATION_UNIT)
}

/// Every source index of every algorithm names an operator.
proof fn lemma_sources_in_range(a: Algorithm, i: int)
    requires
        1 <= i < 4,
    ensures
        match modulator_of(a, i) {
            ModulatedBy::Nothing => true,
            ModulatedBy::Single(j) => j < 4,
            ModulatedBy::Double(j, k) => j < 4 && k < 4,
        },
{
}

impl PatchInstance {
    pub open spec fn wf(&self) -> bool {
        &&& self.definition.wf()
        &&& forall|i: int|
            0 <= i < 4 ==> (#[trigger] self.operators@[i]).wf() && self.operators@[i].definition
                == self.definition.operators@[i]
        &&& -SAMPLE_ONE <= self.prev_feedback1 <= SAMPLE_ONE
        &&& -SAMPLE_ONE <= self.prev_feedback2 <= SAMPLE_ONE
    }

    /// A silent, inactive voice of `definition` at `base_frequency`
    /// millihertz.
    pub fn new(definition: PatchDefinition, base_frequency: u32) -> (r: Self)
        requires
            definition.wf(),
        ensures
            r.wf(),
            r == fresh_voice(definition, base_frequency),
    {
        let operators = definition.generate_new_operators();
        let r = PatchInstance {
            definition,
            operators,
            active: false,
            clock: 0,
            base_frequency,
            prev_feedback1: 0,
            prev_feedback2: 0,
        };
        assert(r.operators@ =~= fresh_voice(definition, base_frequency).operators@);
        assert(r.operators == fresh_voice(definition, base_frequency).operators);
        r
    }

    /// Runs operator `i` for one sample and ticks its envelope.
    #[verifier::rlimit(40)]
    fn run_operator(&mut self, i: usize, tables: &Tables, modulation: u32, noise: i32) -> (r: i32)
        requires
            old(self).wf(),
            tables.wf(),
            i < 4,
            -SAMPLE_ONE <= noise <= SAMPLE_ONE,
        ensures
            final(self).wf(),
            final(self).operators@ == old(self).operators@.update(
                i as int,
                next_operator(old(self).operators@[i as int], old(self).base_frequency, old(self).definition.sample_rate),
            ),
            *final(self) == (PatchInstance { operators: final(self).operators, ..*old(self) }),
            r == operator_sample(
                old(self).operators@[i as int],
                *tables,
                old(self).base_frequency,
                old(self).definition.sample_rate,
                modulation,
                noise,
            ),
            -SAMPLE_ONE <= r <= SAMPLE_ONE,
    {
        let mut op = self.operators[i];
        let r = op.func(tables, self.base_frequency, self.definition.sample_rate, modulation, noise);
        op.envelope.tick();
        self.operators.set(i, op);
        proof {
            assert forall|k: int| 0 <= k < 4 implies (#[trigger] self.operators@[k]).wf()
                && self.operators@[k].definition == self.definition.operators@[k] by {
                if k != i {
                    assert(self.operators@[k] == old(self).operators@[k]);
                }
            }
        }
        r
    }

    /// Produces one sample, with `noise[i]` as the value that operator `i`
    /// uses if its waveform is `Noise`.
    #[verifier::rlimit(50)]
    pub fn next_sample_with(&mut self, tables: &Tables, noise: [i32; 4]) -> (r: i32)
        requires
            old(self).wf(),
            tables.wf(),
            noise_ok(noise@),
        ensures
            final(self).wf(),
            *final(self) == voice_next(*old(self), *tables, noise@),
            r == voice_sample(*old(self), *tables, noise@),
            -4 * SAMPLE_ONE <= r <= 4 * SAMPLE_ONE,
            -SAMPLE_ONE <= raw_samples(*old(self), *tables, noise@)[0] <= SAMPLE_ONE,
    {
        let ghost v = *self;
        let ghost raw = raw_samples(v, *tables, noise@);
        let algorithm = self.definition.algorithm.get_definition();
        proof {
            lemma_sources_in_range(v.definition.algorithm, 1);
            lemma_sources_in_range(v.definition.algorithm, 2);
            lemma_sources_in_range(v.definition.algorithm, 3);
            assert(algorithm.modulators@[0] == modulator_of(v.definition.algorithm, 1));
            assert(algorithm.modulators@[1] == modulator_of(v.definition.algorithm, 2));
            assert(algorithm.modulators@[2] == modulator_of(v.definition.algorithm, 3));
        }
        let half: i64 = (self.definition.feedback.as_multiplier() / 2) as i64;
        let pair: i64 = self.prev_feedback1 as i64 + self.prev_feedback2 as i64;
        proof {
            assert(-0x4000_0000_0000 <= pair * half <= 0x4000_0000_0000) by (nonlinear_arith)
                requires
                    -2 * SAMPLE_ONE <= pair <= 2 * SAMPLE_ONE,
                    0 <= half <= 4194304,
            ;
        }
        let feedback: i64 = pair * half;
        let m0 = wrap_phase(feedback);
        let r0 = self.run_operator(0, tables, m0, noise[0]);
        assert(r0 == raw[0]);
        self.prev_feedback2 = self.prev_feedback1;
        self.prev_feedback1 = r0;
        let s0: i64 = r0 as i64;
        let m1 = source_phase(algorithm.modulators[0], [s0, 0, 0, 0]);
        let r1 = self.run_operator(1, tables, m1, noise[1]);
        assert(r1 == raw[1]);
        let s1: i64 = r1 as i64 * AMPLIFICATION;
        let m2 = source_phase(algorithm.modulators[1], [s0, s1, 0, 0]);
        let r2 = self.run_operator(2, tables, m2, noise[2]);
        assert(r2 == raw[2]);
        let s2: i64 = r2 as i64 * AMPLIFICATION;
        let m3 = source_phase(algorithm.modulators[2], [s0, s1, s2, 0]);
        let r3 = self.run_operator(3, tables, m3, noise[3]);
        assert(r3 == raw[3]);
        self.clock = self.clock.wrapping_add(1);
        let mut sum: i32 = 0;
        if algorithm.carriers[0] {
            sum = sum + r0;
        }
        if algorithm.carriers[1] {
            sum = sum + r1;
        }
        if algorithm.carriers[2] {
            sum = sum + r2;
        }
        if algorithm.carriers[3] {
            sum = sum + r3;
        }
        proof {
            let w = voice_next(v, *tables, noise@);
            assert(self.operators@ =~= w.operators@);
            assert(self.operators == w.operators);
        }
        sum
    }

    /// Produces one sample; operators with the `Noise` waveform draw a fresh
    /// value each.
    pub fn next_sample(&mut self, tables: &Tables) -> (r: i32)
        requires
            old(self).wf(),
            tables.wf(),
        ensures
            final(self).wf(),
            exists|noise: Seq<i32>|
                noise_ok(noise) && *final(self) == voice_next(*old(self), *tables, noise) && r
                    == voice_sample(*old(self), *tables, noise),
            -4 * SAMPLE_ONE <= r <= 4 * SAMPLE_ONE,
    {
        let noise: [i32; 4] = [
            self.operators[0].definition.waveform.draw(),
            self.operators[1].definition.waveform.draw(),
            self.operators[2].definition.waveform.draw(),
            self.operators[3].definition.waveform.draw(),
        ];
        assert(noise_ok(noise@));
        self.next_sample_with(tables, noise)
    }

    /// Presses (`true`) or releases (`false`) the key: every envelope starts
    /// its attack or its release. Nothing happens when the state is already
    /// `active`.
    #[verifier::rlimit(40)]
    pub fn set_active(&mut self, active: bool)
        requires
            old(self).wf(),
        ensures
            final(self).wf(),
            *final(self) == activated(*old(self), active),
    {
        if active == self.active {
            return ;
        }
        self.active = active;
        let mut i: usize = 0;
        while i < 4
            invariant
                0 <= i <= 4,
                self.wf(),
                self.active == active,
                self.definition == old(self).definition,
                self.base_frequency == old(self).base_frequency,
                self.prev_feedback1 == old(self).prev_feedback1,
                self.prev_feedback2 == old(self).prev_feedback2,
                self.clock == old(self).clock,
                forall|k: int|
                    0 <= k < i ==> #[trigger] self.operators@[k] == (OperatorInstance {
                        envelope: enter(
                            old(self).operators@[k].envelope,
                            key_phase(active),
                        ),
                        ..old(self).operators@[k]
                    }),
                forall|k: int| i <= k < 4 ==> #[trigger] self.operators@[k] == old(self).operators@[k],
            decreases 4 - i,
        {
            let mut op = self.operators[i];
            if active {
                op.envelope.key_on();
            } else {
                op.envelope.key_off();
            }
            self.operators.set(i, op);
            proof {
                assert forall|k: int| 0 <= k < 4 implies (#[trigger] self.operators@[k]).wf()
                    && self.operators@[k].definition == self.definition.operators@[k] by {
                    if k != i {
                        assert(self.operators@[k] == old(self).operators@[k] || k < i);
                    }
                }
            }
            i = i + 1;
        }
        proof {
            let w = activated(*old(self), active);
            assert(self.operators@ =~= w.operators@);
            assert(self.operators == w.operators);
            assert(*self == w);
        }
    }

    /// Whether the key is down.
    pub fn get_active(&self) -> (r: bool)
        ensures
            r == self.active,
    {
        self.active
    }

    /// Switches the routing; the next sample uses it.
    pub fn set_algorithm(&mut self, algorithm: Algorithm)
        requires
            old(self).wf(),
        ensures
            final(self).wf(),
            *final(self) == (PatchInstance {
                definition: PatchDefinition { algorithm, ..old(self).definition },
                ..*old(self)
            }),
    {
        self.definition.algorithm = algorithm;
    }

    /// Switches the feedback depth; the next sample uses it.
    pub fn set_feedback(&mut self, feedback: FeedbackLevel)
        requires
            old(self).wf(),
        ensures
            final(self).wf(),
            *final(self) == (PatchInstance {
                definition: PatchDefinition { feedback, ..old(self).definition },
                ..*old(self)
            }),
    {
        self.definition.feedback = feedback;
    }

    /// Switches the waveform of operator `operator_index`; its phase and
    /// envelope carry on.
    pub fn set_waveform(&mut self, operator_index: usize, waveform: Waveform)
        requires
            old(self).wf(),
            operator_index < 4,
        ensures
            final(self).wf(),
            final(self).definition.operators@ == old(self).definition.operators@.update(
                operator_index as int,
                OperatorDefinition { waveform, ..old(self).definition.operators@[operator_index as int] },
            ),
            final(self).operators@ == old(self).operators@.update(
                operator_index as int,
                OperatorInstance {
                    definition: OperatorDefinition {
                        waveform,
                        ..old(self).operators@[operator_index as int].definition
                    },
                    ..old(self).operators@[operator_index as int]
                },
            ),
            *final(self) == (PatchInstance {
                definition: PatchDefinition { operators: final(self).definition.operators, ..old(self).definition },
                operators: final(self).operators,
                ..*old(self)
            }),
    {
        let mut d = self.definition.operators[operator_index];
        d.waveform = waveform;
        self.definition.operators.set(operator_index, d);
        let mut op = self.operators[operator_index];
        op.definition = d;
        self.operators.set(operator_index, op);
        proof {
            assert forall|k: int| 0 <= k < 4 implies (#[trigger] self.operators@[k]).wf()
                && self.operators@[k].definition == self.definition.operators@[k] by {
                if k != operator_index {
                    assert(self.operators@[k] == old(self).operators@[k]);
                    assert(self.definition.operators@[k] == old(self).definition.operators@[k]);
                }
            }
            assert forall|k: int| 0 <= k < 4 implies #[trigger] self.definition.operators@[k].wf() by {
                assert(self.operators@[k].wf());
            }
        }
    }

    /// Sets the base frequency in millihertz; the next sample uses it.
    pub fn set_frequency(&mut self, frequency: u32)
        requires
            old(self).wf(),
        ensures
            final(self).wf(),
            *final(self) == (PatchInstance { base_frequency: frequency, ..*old(self) }),
    {
        self.base_frequency = frequency;
    }

    /// Replaces the patch parameters; the operators keep their phases and
    /// envelope states, with their cadences reloaded from the new rates.
    #[verifier::rlimit(40)]
    pub fn set_definition(&mut self, definition: PatchDefinition)
        requires
            old(self).wf(),
            definition.wf(),
        ensures
            final(self).wf(),
            final(self).definition == definition,
            final(self).active == old(self).active,
            final(self).base_frequency == old(self).base_frequency,
            final(self).prev_feedback1 == old(self).prev_feedback1,
            final(self).prev_feedback2 == old(self).prev_feedback2,
            final(self).clock == old(self).clock,
            forall|i: int|
                0 <= i < 4 ==> #[trigger] final(self).operators@[i] == redefined(
                    old(self).operators@[i],
                    definition.operators@[i],
                ),
    {
        self.definition = definition;
        let mut i: usize = 0;
        while i < 4
            invariant
                0 <= i <= 4,
                definition.wf(),
                self.definition == definition,
                self.active == old(self).active,
                self.base_frequency == old(self).base_frequency,
                self.prev_feedback1 == old(self).prev_feedback1,
                self.prev_feedback2 == old(self).prev_feedback2,
                self.clock == old(self).clock,
                -SAMPLE_ONE <= self.prev_feedback1 <= SAMPLE_ONE,
                -SAMPLE_ONE <= self.prev_feedback2 <= SAMPLE_ONE,
                forall|k: int|
                    0 <= k < i ==> (#[trigger] self.operators@[k]).wf() && self.operators@[k].definition
                        == definition.operators@[k],
                forall|k: int|
                    0 <= k < i ==> #[trigger] self.operators@[k] == redefined(
                        old(self).operators@[k],
                        definition.operators@[k],
                    ),
                forall|k: int| i <= k < 4 ==> #[trigger] self.operators@[k] == old(self).operators@[k],
                forall|k: int|
                    0 <= k < 4 ==> (#[trigger] self.operators@[k]).clock == old(self).operators@[k].clock
                        && self.operators@[k].envelope.current_attenuation
                        == old(self).operators@[k].envelope.current_attenuation,
                forall|k: int| 0 <= k < 4 ==> (#[trigger] old(self).operators@[k]).wf(),
            decreases 4 - i,
        {
            let mut op = self.operators[i];
            op.set_definition(definition.operators[i]);
            self.operators.set(i, op);
            i = i + 1;
        }
    }
}

/// With feedback level 0, operator 0 runs unmodulated, and the feedback
/// history shifts in its unmodulated sample.
pub proof fn lemma_no_feedback(v: PatchInstance, t: Tables, noise: Seq<i32>)
    requires
        v.definition.feedback == FeedbackLevel::Zero,
    ensures
        feedback_modulation(v) == 0,
        raw_samples(v, t, noise)[0] == operator_sample(
            v.operators@[0],
            t,
            v.base_frequency,
            v.definition.sample_rate,
            0,
            noise[0],
        ),
        voice_next(v, t, noise).prev_feedback1 == raw_samples(v, t, noise)[0] as i32,
        voice_next(v, t, noise).prev_feedback2 == v.prev_feedback1,
{
}

/// With algorithm 7 (all carriers, no modulation), no feedback, four equal
/// operators and equal noise, a voice sample is four times the sample of
/// one unmodulated operator.
pub proof fn lemma_four_equal_carriers(v: PatchInstance, t: Tables, noise: Seq<i32>)
    requires
        v.definition.algorithm == Algorithm::Seven,
        v.definition.feedback == FeedbackLevel::Zero,
        forall|i: int| 0 <= i < 4 ==> #[trigger] v.operators@[i] == v.operators@[0],
        noise.len() == 4,
        forall|i: int| 0 <= i < 4 ==> #[trigger] noise[i] == noise[0],
    ensures
        voice_sample(v, t, noise) == 4 * operator_sample(
            v.operators@[0],
            t,
            v.base_frequency,
            v.definition.sample_rate,
            0,
            noise[0],
        ),
{
    assert(v.operators@[1] == v.operators@[0]);
    assert(v.operators@[2] == v.operators@[0]);
    assert(v.operators@[3] == v.operators@[0]);
    assert(noise[1] == noise[0] && noise[2] == noise[0] && noise[3] == noise[0]);
    assert(wrap(0) == 0);
    assert(feedback_modulation(v) == 0);
    assert forall|s: Seq<int>| source_modulation(ModulatedBy::Nothing, s) == 0 by {}
    let r = raw_samples(v, t, noise);
    let x = operator_sample(v.operators@[0], t, v.base_frequency, v.definition.sample_rate, 0, noise[0]);
    assert(r[0] == x && r[1] == x && r[2] == x && r[3] == x);
}

} // verus!
