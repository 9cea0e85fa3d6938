//! The four-phase amplitude envelope.
//!
//! Attenuation runs from 0 (loudest) to `ATTENUATION_MAX` (silent). Each
//! phase has a rate byte; the rate decides how many samples pass between two
//! unit steps of the attenuation (`cycles_per_tick`), and rate 0 freezes the
//! envelope in its phase.
use vstd::prelude::*;
use crate::{ATTENUATION_MAX, GAIN_ONE};
use crate::tables::Tables;

verus! {

/// The static parameters of an envelope. All are bytes.
#[derive(Clone, Copy, Debug, PartialEq, Eq, Structural)]
pub struct EnvelopeDefinition {
    /// Static attenuation of the output: 255 is full level, 0 is the quietest.
    pub total_level: u8,
    /// Sustain is entered at attenuation `ATTENUATION_MAX - sustain_level`.
    pub sustain_level: u8,
    pub attack_rate: u8,
    /// Rate of the decay from the attack peak to the sustain level.
    pub decay_attack_rate: u8,
    /// Rate of the decay while sustaining.
    pub decay_sustain_rate: u8,
    pub release_rate: u8,
}

impl EnvelopeDefinition {
    pub fn new(
        total_level: u8,
        attack_rate: u8,
        decay_attack_rate: u8,
        sustain_level: u8,
        decay_sustain_rate: u8,
        release_rate: u8,
    ) -> (r: Self)
        ensures
            r.total_level == total_level,
            r.attack_rate == attack_rate,
            r.decay_attack_rate == decay_attack_rate,
            r.sustain_level == sustain_level,
            r.decay_sustain_rate == decay_sustain_rate,
            r.release_rate == release_rate,
    {
        EnvelopeDefinition {
            total_level,
            sustain_level,
            attack_rate,
            decay_attack_rate,
            decay_sustain_rate,
            release_rate,
        }
    }
}

impl Default for EnvelopeDefinition {
    /// Silent level, fastest attack and release, no decay.
    fn default() -> (r: Self)
        ensures
            r == (EnvelopeDefinition {
                total_level: 0,
                sustain_level: 255,
                attack_rate: 255,
                decay_attack_rate: 0,
                decay_sustain_rate: 0,
                release_rate: 255,
            }),
    {
        EnvelopeDefinition {
            total_level: 0,
            sustain_level: 255,
            attack_rate: 255,
            decay_attack_rate: 0,
            decay_sustain_rate: 0,
            release_rate: 255,
        }
    }
}

#[derive(Clone, Copy, Debug, PartialEq, Eq, Structural)]
pub enum EnvelopePhase {
    Attack,
    Decay,
    Sustain,
    Release,
}

/// Samples between two unit steps for a rate shift `s`: `2^(11 - s)`.
pub open spec fn cycles_of_shift(s: int) -> u32 {
    if s <= 0 {
        2048
    } else if s == 1 {
        1024
    } else if s == 2 {
        512
    } else if s == 3 {
        256
    } else if s == 4 {
        128
    } else if s == 5 {
        64
    } else if s == 6 {
        32
    } else if s == 7 {
        16
    } else if s == 8 {
        8
    } else if s == 9 {
        4
    } else if s == 10 {
        2
    } else {
        1
    }
}

/// `1 << (11 - rate·2 / 46)` for a positive rate, where `46 = 511 / 11`;
/// 0 (never advance) for rate 0.
pub open spec fn rate_cycles(rate: u8) -> u32 {
    if rate == 0 {
        0
    } else {
        cycles_of_shift((rate as int * 2) / 46)
    }
}

/// The rate byte that drives `phase`.
pub open spec fn rate_of(d: EnvelopeDefinition, phase: EnvelopePhase) -> u8 {
    match phase {
        EnvelopePhase::Attack => d.attack_rate,
        EnvelopePhase::Decay => d.decay_attack_rate,
        EnvelopePhase::Sustain => d.decay_sustain_rate,
        EnvelopePhase::Release => d.release_rate,
    }
}

/// The attenuation at which decay turns into sustain.
pub open spec fn sustain_target(d: EnvelopeDefinition) -> int {
    ATTENUATION_MAX - d.sustain_level
}

/// A running envelope.
#[derive(Clone, Copy, Debug)]
pub struct Envelope {
    pub definition: EnvelopeDefinition,
    pub current_attenuation: u16,
    pub phase: EnvelopePhase,
    /// Samples counted towards the next step.
    pub clock: u32,
    /// Samples between two steps in the current phase; 0 when frozen.
    pub cycles_per_tick: u32,
}

/// `e` switched into `phase`, its cadence reloaded from the phase's rate.
pub open spec fn enter(e: Envelope, phase: EnvelopePhase) -> Envelope {
    Envelope { phase, clock: 0, cycles_per_tick: rate_cycles(rate_of(e.definition, phase)), ..e }
}

/// The proportional attack step: `cur - (cur / 16 + 1)`, not below 0.
pub open spec fn attack_step(cur: int) -> int {
    if cur == 0 {
        0
    } else {
        cur - (cur / 16 + 1)
    }
}

/// One unit step of the attenuation in the current phase.
pub open spec fn step(e: Envelope) -> Envelope {
    let cur = e.current_attenuation as int;
    match e.phase {
        EnvelopePhase::Attack => {
            let next = attack_step(cur);
            if next == 0 {
                enter(Envelope { current_attenuation: 0, ..e }, EnvelopePhase::Decay)
            } else {
                Envelope { current_attenuation: next as u16, ..e }
            }
        },
        EnvelopePhase::Decay => {
            let next = if cur + 1 > ATTENUATION_MAX { ATTENUATION_MAX as int } else { cur + 1 };
            if next >= sustain_target(e.definition) {
                enter(Envelope { current_attenuation: next as u16, ..e }, EnvelopePhase::Sustain)
            } else {
                Envelope { current_attenuation: next as u16, ..e }
            }
        },
        _ => {
            let next = if cur + 1 > ATTENUATION_MAX { ATTENUATION_MAX as int } else { cur + 1 };
            Envelope { current_attenuation: next as u16, ..e }
        },
    }
}

/// One sample of the envelope: count the sample, and take a step once
/// `cycles_per_tick` samples have been counted.
pub open spec fn tick_model(e: Envelope) -> Envelope {
    if e.cycles_per_tick == 0 {
        e
    } else if e.clock + 1 < e.cycles_per_tick {
        Envelope { clock: (e.clock + 1) as u32, ..e }
    } else {
        step(Envelope { clock: 0, ..e })
    }
}

/// `n` samples of the envelope.
pub open spec fn ticks(e: Envelope, n: nat) -> Envelope
    decreases n,
{
    if n == 0 {
        e
    } else {
        ticks(tick_model(e), (n - 1) as nat)
    }
}

/// A released envelope at `ATTENUATION_MAX`.
pub open spec fn released(definition: EnvelopeDefinition) -> Envelope {
    Envelope {
        definition,
        current_attenuation: ATTENUATION_MAX,
        phase: EnvelopePhase::Release,
        clock: 0,
        cycles_per_tick: rate_cycles(definition.release_rate),
    }
}

/// The gain of the envelope: the envelope curve at the current attenuation
/// times the level curve at `255 - total_level`.
pub open spec fn gain_of(e: Envelope, t: Tables) -> int {
    (t.envelope_gain@[e.current_attenuation as int] as int * t.level_gain@[255
        - e.definition.total_level] as int) / GAIN_ONE as int
}

impl Envelope {
    pub open spec fn wf(&self) -> bool {
        &&& self.current_attenuation <= ATTENUATION_MAX
        &&& self.cycles_per_tick == rate_cycles(rate_of(self.definition, self.phase))
        &&& (self.cycles_per_tick == 0 ==> self.clock == 0)
        &&& (self.cycles_per_tick != 0 ==> self.clock < self.cycles_per_tick)
    }

    /// A released, silent envelope.
    pub fn new(definition: EnvelopeDefinition) -> (r: Self)
        ensures
            r.wf(),
            r == released(definition),
    {
        Envelope {
            definition,
            current_attenuation: ATTENUATION_MAX,
            phase: EnvelopePhase::Release,
            clock: 0,
            cycles_per_tick: cycles_for_rate(definition.release_rate),
        }
    }

    /// Enters `phase` and reloads the cadence from its rate.
    fn enter_phase(&mut self, phase: EnvelopePhase)
        ensures
            *final(self) == enter(*old(self), phase),
    {
        let rate = match phase {
            EnvelopePhase::Attack => self.definition.attack_rate,
            EnvelopePhase::Decay => self.definition.decay_attack_rate,
            EnvelopePhase::Sustain => self.definition.decay_sustain_rate,
            EnvelopePhase::Release => self.definition.release_rate,
        };
        self.phase = phase;
        self.clock = 0;
        self.cycles_per_tick = cycles_for_rate(rate);
    }

    /// Starts the attack from the current attenuation.
    pub fn key_on(&mut self)
        requires
            old(self).wf(),
        ensures
            *final(self) == enter(*old(self), EnvelopePhase::Attack),
            final(self).wf(),
    {
        self.enter_phase(EnvelopePhase::Attack);
    }

    /// Starts the release from the current attenuation.
    pub fn key_off(&mut self)
        requires
            old(self).wf(),
        ensures
            *final(self) == enter(*old(self), EnvelopePhase::Release),
            final(self).wf(),
    {
        self.enter_phase(EnvelopePhase::Release);
    }

    /// Replaces the parameters; the cadence of the current phase is reloaded
    /// from the new rates.
    pub fn set_definition(&mut self, definition: EnvelopeDefinition)
        requires
            old(self).wf(),
        ensures
            *final(self) == enter(Envelope { definition, ..*old(self) }, old(self).phase),
            final(self).wf(),
    {
        self.definition = definition;
        let phase = self.phase;
        self.enter_phase(phase);
    }

    /// Advances the envelope by one sample.
    pub fn tick(&mut self)
        requires
            old(self).wf(),
        ensures
            *final(self) == tick_model(*old(self)),
            final(self).wf(),
    {
        if self.cycles_per_tick == 0 {
            return ;
        }
        if self.clock + 1 < self.cycles_per_tick {
            self.clock = self.clock + 1;
            return ;
        }
        self.clock = 0;
        let cur: u16 = self.current_attenuation;
        match self.phase {
            EnvelopePhase::Attack => {
                let next: u16 = if cur == 0 {
                    0
                } else {
                    cur - (cur / 16 + 1)
                };
                if next == 0 {
                    self.current_attenuation = 0;
                    self.enter_phase(EnvelopePhase::Decay);
                } else {
                    self.current_attenuation = next;
                }
            },
            EnvelopePhase::Decay => {
                let next: u16 = if cur + 1 > ATTENUATION_MAX {
                    ATTENUATION_MAX
                } else {
                    cur + 1
                };
                self.current_attenuation = next;
                if next as i32 >= ATTENUATION_MAX as i32 - self.definition.sustain_level as i32 {
                    self.enter_phase(EnvelopePhase::Sustain);
                }
            },
            _ => {
                self.current_attenuation = if cur + 1 > ATTENUATION_MAX {
                    ATTENUATION_MAX
                } else {
                    cur + 1
                };
            },
        }
    }

    /// The gain that the operator applies to its waveform, in units of
    /// `GAIN_ONE`.
    pub fn attenuation(&self, tables: &Tables) -> (r: u32)
        requires
            self.wf(),
            tables.wf(),
        ensures
            r == gain_of(*self, *tables),
            r <= GAIN_ONE,
    {
        let env: u32 = tables.envelope_gain[self.current_attenuation as usize];
        let level: u32 = tables.level_gain[(255 - self.definition.total_level) as usize];
        proof {
            assert(tables.envelope_gain@[0] >= env);
            assert(tables.level_gain@[0] >= level);
            assert(env as int * level as int <= GAIN_ONE as int * GAIN_ONE as int) by (nonlinear_arith)
                requires
                    env <= GAIN_ONE,
                    level <= GAIN_ONE,
            ;
            assert((env as int * level as int) / GAIN_ONE as int <= GAIN_ONE) by (nonlinear_arith)
                requires
                    env as int * level as int <= GAIN_ONE as int * GAIN_ONE as int,
            ;
        }
        ((env as u64 * level as u64) / (GAIN_ONE as u64)) as u32
    }
}

/// The cadence of a rate byte.
pub fn cycles_for_rate(rate: u8) -> (r: u32)
    ensures
        r == rate_cycles(rate),
{
    if rate == 0 {
        return 0;
    }
    let shift: u32 = (rate as u32 * 2) / 46;
    match shift {
        0 => 2048,
        1 => 1024,
        2 => 512,
        3 => 256,
        4 => 128,
        5 => 64,
        6 => 32,
        7 => 16,
        8 => 8,
        9 => 4,
        10 => 2,
        _ => 1,
    }
}

/// The cadence is positive for every positive rate and never grows with the
/// rate: a slower rate waits at least as many samples between steps.
pub proof fn lemma_rate_cycles_monotone(a: u8, b: u8)
    requires
        0 < a <= b,
    ensures
        rate_cycles(a) >= rate_cycles(b) > 0,
        rate_cycles(255) == 1,
        rate_cycles(0) == 0,
{
    assert((a as int * 2) / 46 <= (b as int * 2) / 46) by (nonlinear_arith)
        requires
            a <= b,
    ;
}

/// With attack rate 0, a key-on freezes the envelope: no number of samples
/// changes its attenuation.
pub proof fn lemma_zero_attack_rate_freezes(e: Envelope, n: nat)
    requires
        e.wf(),
        e.definition.attack_rate == 0,
    ensures
        ticks(enter(e, EnvelopePhase::Attack), n).current_attenuation == e.current_attenuation,
    decreases n,
{
    let on = enter(e, EnvelopePhase::Attack);
    if n > 0 {
        assert(tick_model(on) == on);
        lemma_zero_attack_rate_freezes(e, (n - 1) as nat);
    }
}

/// In release, one sample never lowers the attenuation, and the envelope
/// stays in release; at `ATTENUATION_MAX` a sample leaves it there.
pub proof fn lemma_release_monotone(e: Envelope)
    requires
        e.wf(),
        e.phase == EnvelopePhase::Release,
    ensures
        tick_model(e).wf(),
        tick_model(e).phase == EnvelopePhase::Release,
        tick_model(e).current_attenuation >= e.current_attenuation,
        e.current_attenuation == ATTENUATION_MAX ==> tick_model(e).current_attenuation == ATTENUATION_MAX,
{
}

proof fn lemma_release_progress(e: Envelope, k: nat)
    requires
        e.wf(),
        e.phase == EnvelopePhase::Release,
        e.definition.release_rate > 0,
    ensures
        ticks(e, k).wf(),
        ticks(e, k).phase == EnvelopePhase::Release,
        ticks(e, k).current_attenuation >= e.current_attenuation,
        ticks(e, k).current_attenuation as int >= ATTENUATION_MAX as int || ticks(e, k).current_attenuation as int
            >= e.current_attenuation as int + (k + e.clock) / (e.cycles_per_tick as int),
    decreases k,
{
    let c = e.cycles_per_tick as int;
    lemma_rate_cycles_monotone(e.definition.release_rate, 255);
    if k == 0 {
        vstd::arithmetic::div_mod::lemma_basic_div(e.clock as int, c);
    } else {
        let e1 = tick_model(e);
        lemma_release_monotone(e);
        lemma_release_progress(e1, (k - 1) as nat);
        assert(e1.cycles_per_tick == e.cycles_per_tick);
        if e.clock + 1 < c {
            assert(e1.clock == e.clock + 1);
            assert(e1.current_attenuation == e.current_attenuation);
            assert((k - 1) + e1.clock == k + e.clock);
        } else {
            assert(e.clock + 1 == c);
            assert(e1.clock == 0);
            assert((k + e.clock) / c == (k - 1) / c + 1) by {
                assert(k + e.clock == (k - 1) + c);
                vstd::arithmetic::div_mod::lemma_div_plus_one((k - 1) as int, c);
            }
        }
    }
}

/// A released envelope with a positive release rate reaches
/// `ATTENUATION_MAX` within `ATTENUATION_MAX · cycles_per_tick` samples, and
/// its gain is then the level curve at `255 - total_level` times the envelope
/// curve at `ATTENUATION_MAX`.
pub proof fn lemma_release_reaches_silence(e: Envelope, t: Tables)
    requires
        e.wf(),
        e.phase == EnvelopePhase::Release,
        e.definition.release_rate > 0,
    ensures
        ticks(e, (ATTENUATION_MAX * e.cycles_per_tick) as nat).current_attenuation == ATTENUATION_MAX,
        gain_of(ticks(e, (ATTENUATION_MAX * e.cycles_per_tick) as nat), t) == (t.envelope_gain@[
            ATTENUATION_MAX as int] as int * t.level_gain@[255 - e.definition.total_level] as int)
            / GAIN_ONE as int,
{
    let c = e.cycles_per_tick as int;
    let k = (ATTENUATION_MAX * e.cycles_per_tick) as nat;
    lemma_rate_cycles_monotone(e.definition.release_rate, 255);
    lemma_release_progress(e, k);
    vstd::arithmetic::div_mod::lemma_div_multiples_vanish(ATTENUATION_MAX as int, c);
    vstd::arithmetic::div_mod::lemma_div_is_ordered(k as int, k + e.clock, c);
    assert((k as int) / c == ATTENUATION_MAX as int);
    let f = ticks(e, k);
    assert(f.definition == e.definition) by {
        lemma_ticks_keep_definition(e, k);
    }
}

/// A released envelope with a positive release rate is at
/// `ATTENUATION_MAX` after any `n >= (ATTENUATION_MAX - current_attenuation)
/// · cycles_per_tick` samples.
pub proof fn lemma_release_silent_after(e: Envelope, n: nat)
    requires
        e.wf(),
        e.phase == EnvelopePhase::Release,
        e.definition.release_rate > 0,
        n >= (ATTENUATION_MAX - e.current_attenuation) * e.cycles_per_tick,
    ensures
        ticks(e, n).current_attenuation == ATTENUATION_MAX,
{
    let c = e.cycles_per_tick as int;
    let need = ATTENUATION_MAX - e.current_attenuation;
    lemma_rate_cycles_monotone(e.definition.release_rate, 255);
    lemma_release_progress(e, n);
    vstd::arithmetic::div_mod::lemma_div_multiples_vanish(need, c);
    assert(need * c == c * need) by (nonlinear_arith);
    vstd::arithmetic::div_mod::lemma_div_is_ordered(need * c, n + e.clock, c);
    assert((n + e.clock) / c >= need);
    assert(ticks(e, n).wf());
}

/// In attack at one step per sample, the envelope reaches attenuation 0 and
/// enters decay after the returned number of samples, which is at most the
/// starting attenuation (or one sample when it starts at 0).
pub proof fn lemma_attack_completes(e: Envelope) -> (n: nat)
    requires
        e.wf(),
        e.phase == EnvelopePhase::Attack,
        e.cycles_per_tick == 1,
    ensures
        1 <= n,
        n <= e.current_attenuation || n == 1,
        ticks(e, n).current_attenuation == 0,
        ticks(e, n).phase == EnvelopePhase::Decay,
    decreases e.current_attenuation,
{
    let e1 = tick_model(e);
    let cur = e.current_attenuation as int;
    if attack_step(cur) == 0 {
        assert(ticks(e, 1) == ticks(e1, 0));
        1
    } else {
        assert(attack_step(cur) < cur);
        assert(e1.phase == EnvelopePhase::Attack);
        let m = lemma_attack_completes(e1);
        assert(ticks(e, m + 1) == ticks(e1, m));
        m + 1
    }
}

/// A key-on with attack rate 255 reaches attenuation 0 and enters decay
/// within `ATTENUATION_MAX` samples, from any attenuation.
pub proof fn lemma_full_attack(e: Envelope) -> (n: nat)
    requires
        e.wf(),
        e.definition.attack_rate == 255,
    ensures
        1 <= n <= ATTENUATION_MAX,
        ticks(enter(e, EnvelopePhase::Attack), n).current_attenuation == 0,
        ticks(enter(e, EnvelopePhase::Attack), n).phase == EnvelopePhase::Decay,
{
    lemma_rate_cycles_monotone(255, 255);
    lemma_attack_completes(enter(e, EnvelopePhase::Attack))
}

proof fn lemma_ticks_keep_definition(e: Envelope, n: nat)
    ensures
        ticks(e, n).definition == e.definition,
    decreases n,
{
    if n > 0 {
        lemma_ticks_keep_definition(tick_model(e), (n - 1) as nat);
    }
}

} // verus!
