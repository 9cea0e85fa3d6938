use fm_synth::algorithm::{Algorithm, FeedbackLevel, ModulatedBy};
use fm_synth::envelope::{cycles_for_rate, Envelope, EnvelopeDefinition, EnvelopePhase};
use fm_synth::mixer::{write_to_buffer, ScopeRing};
use fm_synth::operator::{
    apply_gain, detune_as_multiplier, get_delta_p, FrequencyMultiplier, OperatorDefinition,
    OperatorInstance,
};
use fm_synth::patch::{PatchDefinition, PatchInstance, PHASE_PER_MODULATION_UNIT};
use fm_synth::sequencer::{
    index_to_frequency, KeyState, Pattern, PatternEntry, SequenceDefinition, SequenceInstance,
};
use fm_synth::tables::Tables;
use fm_synth::waveform::Waveform;
use fm_synth::{ConfigError, AMPLIFICATION, ATTENUATION_MAX, GAIN_ONE, SAMPLE_ONE};

fn quarter_sine() -> Vec<i32> {
    (0..=16384)
        .map(|k| ((k as f64 * std::f64::consts::TAU / 65536.0).sin() * 32768.0).round() as i32)
        .collect()
}

fn gain_curve(len: usize, max: f64) -> Vec<u32> {
    (0..len)
        .map(|i| (10f64.powf(-(96.0 / (max + 1.0)) * i as f64 / 20.0) * 16777216.0).round() as u32)
        .collect()
}

fn tables() -> Tables {
    Tables::new(quarter_sine(), gain_curve(1025, 1024.0), gain_curve(256, 255.0)).unwrap()
}

fn env(total_level: u8, attack: u8, decay: u8, sustain: u8, decay_sustain: u8, release: u8) -> EnvelopeDefinition {
    EnvelopeDefinition::new(total_level, attack, decay, sustain, decay_sustain, release)
}

fn mix(voices: &mut Vec<PatchInstance>, t: &Tables, frames: usize) -> Vec<i32> {
    let mut data = vec![0i32; frames];
    let mut scope = ScopeRing::new(8);
    write_to_buffer(&mut data, 1, voices, t, &mut scope);
    data
}

/// A patch where operator 0 is a full-level sine with an instant attack that
/// then holds at full output, and the other three are at the lowest level.
fn sine_patch(sample_rate: u32, algorithm: Algorithm) -> PatchDefinition {
    let mut d = PatchDefinition::new(sample_rate).unwrap();
    d.algorithm = algorithm;
    d.operators[0] = OperatorDefinition::sine(env(255, 255, 0, 0, 0, 0));
    for i in 1..4 {
        d.operators[i] = OperatorDefinition::sine(env(0, 255, 0, 0, 0, 0));
    }
    d
}

#[test]
fn sine_round_trip() {
    let t = tables();
    let mut v = PatchInstance::new(sine_patch(48000, Algorithm::Seven), 480_000);
    v.set_active(true);
    let mut voices = vec![v];
    let data = mix(&mut voices, &t, 400);
    let block = &data[200..300];
    let next = &data[300..400];
    for k in 0..100 {
        assert!((block[k] - next[k]).abs() <= 8, "sample {} differs: {} {}", k, block[k], next[k]);
    }
    let scale = SAMPLE_ONE as f64;
    assert!((block[0] as f64).abs() < 0.08 * scale);
    assert!(((block[25] as f64) - scale).abs() < 0.02 * scale);
    assert!((block[50] as f64).abs() < 0.08 * scale);
    assert!(((block[75] as f64) + scale).abs() < 0.02 * scale);
}

#[test]
fn envelope_full_cycle() {
    let mut e = Envelope::new(env(255, 255, 0, 0, 0, 255));
    e.key_on();
    let mut ticks = 0;
    while e.current_attenuation != 0 {
        e.tick();
        ticks += 1;
        assert!(ticks <= ATTENUATION_MAX as usize);
    }
    assert_eq!(e.phase, EnvelopePhase::Decay);
    for _ in 0..5000 {
        e.tick();
    }
    assert_eq!(e.phase, EnvelopePhase::Decay);
    assert_eq!(e.current_attenuation, 0);
    e.key_off();
    assert_eq!(e.phase, EnvelopePhase::Release);
    for _ in 0..ATTENUATION_MAX {
        e.tick();
    }
    assert_eq!(e.current_attenuation, ATTENUATION_MAX);
    e.tick();
    assert_eq!(e.current_attenuation, ATTENUATION_MAX);
}

/// Wraps `x` to one phase period as the engine does.
fn wrap(x: i64) -> u32 {
    x.rem_euclid(1i64 << 32) as u32
}

/// Forces an operator's envelope to full output, frozen in decay.
fn held_open(mut op: OperatorInstance) -> OperatorInstance {
    op.envelope.current_attenuation = 0;
    op.envelope.phase = EnvelopePhase::Decay;
    op.envelope.cycles_per_tick = 0;
    op.envelope.clock = 0;
    op
}

#[test]
fn algorithm_one_routing() {
    let t = tables();
    let mut d = PatchDefinition::new(48000).unwrap();
    d.algorithm = Algorithm::One;
    d.feedback = FeedbackLevel::Zero;
    for i in 0..4 {
        d.operators[i] = OperatorDefinition::sine(env(255, 255, 0, 0, 0, 0));
    }
    let mut v = PatchInstance::new(d, 1_000_000);
    v.active = true;
    for i in 0..4 {
        v.operators[i] = held_open(v.operators[i]);
    }
    let mut ops = v.operators;
    let mut voices = vec![v];
    let data = mix(&mut voices, &t, 64);
    for frame in 0..64 {
        let s0 = ops[0].func(&t, 1_000_000, 48000, 0, 0) as i64;
        let s1 = ops[1].func(&t, 1_000_000, 48000, 0, 0) as i64 * AMPLIFICATION;
        let m2 = wrap((s0 + s1) * AMPLIFICATION * PHASE_PER_MODULATION_UNIT);
        let s2 = ops[2].func(&t, 1_000_000, 48000, m2, 0) as i64 * AMPLIFICATION;
        let m3 = wrap(s2 * AMPLIFICATION * PHASE_PER_MODULATION_UNIT);
        let s3 = ops[3].func(&t, 1_000_000, 48000, m3, 0);
        assert_eq!(data[frame], s3, "frame {}", frame);
    }
    let def = Algorithm::One.get_definition();
    assert_eq!(def.carriers, [false, false, false, true]);
    assert_eq!(def.modulators, [ModulatedBy::Nothing, ModulatedBy::Double(0, 1), ModulatedBy::Single(2)]);
}

#[test]
fn feedback_smoothing_stays_bounded() {
    let t = tables();
    let mut d = sine_patch(48000, Algorithm::Seven);
    d.feedback = FeedbackLevel::Fifteen;
    let mut v = PatchInstance::new(d, 440_000);
    v.set_active(true);
    let mut voices = vec![v];
    let data = mix(&mut voices, &t, 48000);
    for s in data {
        assert!(s.abs() <= SAMPLE_ONE + 4, "sample {}", s);
    }
}

#[test]
fn pulse_duty_one_tenth() {
    let t = tables();
    let w = Waveform::pulse(6554).unwrap();
    let delta = get_delta_p(1_000_000, 48000, FrequencyMultiplier::one(), 0);
    let mut low = 0;
    for n in 0..48u32 {
        let v = w.func(&t, n.wrapping_mul(delta), 0, 0);
        let sine = (n as f64 / 48.0 * std::f64::consts::TAU).sin();
        let expect_low = (sine + 1.0) / 2.0 < 0.1;
        assert_eq!(v, if expect_low { -SAMPLE_ONE } else { SAMPLE_ONE }, "sample {}", n);
        if expect_low {
            low += 1;
        }
    }
    assert_eq!(low, 9);
    assert_eq!(w.func(&t, 0, 0, 0), SAMPLE_ONE);
}

#[test]
fn sequencer_steps_twice_in_24000_samples() {
    let t = tables();
    let def = SequenceDefinition::test_pattern(48000).unwrap();
    assert_eq!(def.ticks_per_pattern_step, 12000);
    let mut seq = SequenceInstance::new(def);
    for _ in 0..12000 {
        seq.next(&t);
    }
    assert_eq!(seq.pattern_index, 1);
    assert!(seq.output[0].unwrap().active);
    assert_eq!(seq.output[0].unwrap().base_frequency, index_to_frequency(49).unwrap());
    for _ in 0..12000 {
        seq.next(&t);
    }
    assert_eq!(seq.pattern_index, 2);
    assert!(seq.output[0].unwrap().active);
}

#[test]
fn zero_attack_rate_freezes() {
    let mut e = Envelope::new(env(255, 0, 10, 0, 10, 10));
    e.key_on();
    for _ in 0..10000 {
        e.tick();
        assert_eq!(e.current_attenuation, ATTENUATION_MAX);
    }
}

#[test]
fn release_rises_to_silence() {
    let t = tables();
    let mut e = Envelope::new(env(200, 255, 0, 0, 0, 100));
    e.key_on();
    for _ in 0..300 {
        e.tick();
    }
    assert_eq!(e.current_attenuation, 0);
    e.key_off();
    let bound = ATTENUATION_MAX as usize * e.cycles_per_tick as usize;
    let mut last = e.current_attenuation;
    for _ in 0..bound {
        e.tick();
        assert!(e.current_attenuation >= last);
        last = e.current_attenuation;
    }
    assert_eq!(e.current_attenuation, ATTENUATION_MAX);
    let expected = (t.envelope_gain[1024] as u64 * t.level_gain[55] as u64 / GAIN_ONE as u64) as u32;
    assert_eq!(e.attenuation(&t), expected);
    e.tick();
    assert_eq!(e.current_attenuation, ATTENUATION_MAX);
}

#[test]
fn sine_phase_period() {
    let delta = get_delta_p(480_000, 48000, FrequencyMultiplier::one(), 0);
    assert_eq!(delta, 42949672);
    let after_period = (delta as u64 * 100) as i64;
    let drift = (1i64 << 32) - after_period;
    assert!(drift >= 0 && drift < 100);
}

#[test]
fn four_equal_carriers() {
    let t = tables();
    let mut d = PatchDefinition::new(48000).unwrap();
    d.algorithm = Algorithm::Seven;
    for i in 0..4 {
        d.operators[i] = OperatorDefinition::sine(env(255, 255, 0, 0, 0, 0));
    }
    let mut v = PatchInstance::new(d, 440_000);
    v.set_active(true);
    let mut op = v.operators[0];
    for _ in 0..50 {
        let expected = 4 * op.func(&t, 440_000, 48000, 0, 0);
        op.envelope.tick();
        assert_eq!(v.next_sample_with(&t, [0; 4]), expected);
    }
}

#[test]
fn no_feedback_history() {
    let t = tables();
    let mut d = sine_patch(48000, Algorithm::Zero);
    d.feedback = FeedbackLevel::Zero;
    let mut v = PatchInstance::new(d, 440_000);
    v.set_active(true);
    let mut op = v.operators[0];
    let mut prev = 0;
    for _ in 0..50 {
        let expected = op.func(&t, 440_000, 48000, 0, 0);
        op.envelope.tick();
        v.next_sample_with(&t, [0; 4]);
        assert_eq!(v.prev_feedback1, expected);
        assert_eq!(v.prev_feedback2, prev);
        prev = expected;
    }
}

#[test]
fn waveforms_repeat_after_a_period() {
    let t = tables();
    let all = [
        Waveform::Sine,
        Waveform::HalfSine,
        Waveform::AbsoluteSine,
        Waveform::QuarterSine,
        Waveform::AlternatingSine,
        Waveform::CamelSine,
        Waveform::InvertedSine,
        Waveform::InvertedHalfSine,
        Waveform::InvertedAlternatingSine,
        Waveform::InvertedCamelSine,
        Waveform::Square,
        Waveform::Pulse(1000),
        Waveform::Saw,
        Waveform::Triangle,
        Waveform::LogarithmicSaw,
    ];
    for w in all {
        for k in 0..64u64 {
            let phase = k * 67_108_864 + 12345;
            let once = (phase % (1u64 << 32)) as u32;
            let again = ((phase + (1u64 << 32)) % (1u64 << 32)) as u32;
            let a = w.func(&t, once, 777, 0);
            assert_eq!(a, w.func(&t, again, 777, 0));
            assert!(a.abs() <= SAMPLE_ONE);
        }
    }
}

#[test]
fn waveform_values() {
    let t = tables();
    let quarter = 1u32 << 30;
    assert_eq!(Waveform::Sine.func(&t, quarter, 0, 0), SAMPLE_ONE);
    assert_eq!(Waveform::Sine.func(&t, 3 * quarter, 0, 0), -SAMPLE_ONE);
    assert_eq!(Waveform::Square.func(&t, 0, 0, 0), SAMPLE_ONE);
    assert_eq!(Waveform::Square.func(&t, 2 * quarter, 0, 0), -SAMPLE_ONE);
    assert_eq!(Waveform::Saw.func(&t, 0, 0, 0), -SAMPLE_ONE);
    assert_eq!(Waveform::Saw.func(&t, 2 * quarter, 0, 0), 0);
    assert_eq!(Waveform::Triangle.func(&t, quarter, 0, 0), SAMPLE_ONE);
    assert_eq!(Waveform::Triangle.func(&t, 3 * quarter, 0, 0), -SAMPLE_ONE);
    assert_eq!(Waveform::HalfSine.func(&t, 3 * quarter, 0, 0), 0);
    assert_eq!(Waveform::AbsoluteSine.func(&t, 3 * quarter, 0, 0), SAMPLE_ONE);
    assert_eq!(Waveform::InvertedSine.func(&t, 0, 0, 0), 0);
    assert_eq!(Waveform::InvertedSine.func(&t, quarter, 0, 0), SAMPLE_ONE);
    assert_eq!(Waveform::InvertedSine.func(&t, 3 * quarter, 0, 0), -SAMPLE_ONE);
    assert_eq!(Waveform::LogarithmicSaw.func(&t, 0, 0, 0), SAMPLE_ONE);
    assert_eq!(Waveform::LogarithmicSaw.func(&t, 2 * quarter, 0, 0), 0);
    assert_eq!(Waveform::Sine.func(&t, 0, quarter, 0), SAMPLE_ONE);
    assert_eq!(Waveform::Noise.func(&t, 0, 0, 1234), 1234);
    assert_eq!(Waveform::pulse(32768), Some(Waveform::Square));
    assert_eq!(Waveform::from_tag(11, 100), Some(Waveform::Pulse(100)));
    assert_eq!(Waveform::LogarithmicSaw.tag(), 14);
}

#[test]
fn noise_draws_vary_within_range() {
    let draws: Vec<i32> = (0..64).map(|_| Waveform::Noise.draw()).collect();
    assert!(draws.iter().all(|d| d.abs() <= SAMPLE_ONE));
    assert!(draws.iter().any(|d| *d != draws[0]));
    assert_eq!(Waveform::Sine.draw(), 0);
}

#[test]
fn attenuation_table_shape() {
    let t = tables();
    assert_eq!(t.envelope_gain[0], GAIN_ONE);
    for i in 0..1024 {
        assert!(t.envelope_gain[i] >= t.envelope_gain[i + 1]);
    }
    assert!((t.envelope_gain[1024] as f64) <= 1e-4 * GAIN_ONE as f64);
    let mut rising = gain_curve(1025, 1024.0);
    rising[10] = rising[9] + 1;
    assert!(Tables::new(quarter_sine(), rising, gain_curve(256, 255.0)).is_none());
    let mut loud_end = gain_curve(1025, 1024.0);
    loud_end[1024] = 5000;
    loud_end[1023] = 5000;
    loud_end[1022] = 5000;
    assert!(Tables::new(quarter_sine(), loud_end, gain_curve(256, 255.0)).is_none());
    let mut bad_quarter = quarter_sine();
    bad_quarter[16384] = 30000;
    assert!(Tables::new(bad_quarter, gain_curve(1025, 1024.0), gain_curve(256, 255.0)).is_none());
}

#[test]
fn mixer_is_additive() {
    let t = tables();
    let mut a = PatchInstance::new(sine_patch(48000, Algorithm::Seven), 440_000);
    a.set_active(true);
    let mut d = sine_patch(48000, Algorithm::Zero);
    d.feedback = FeedbackLevel::Seven;
    let mut b = PatchInstance::new(d, 660_000);
    b.set_active(true);
    let both = mix(&mut vec![a, b], &t, 256);
    let only_a = mix(&mut vec![a], &t, 256);
    let only_b = mix(&mut vec![b], &t, 256);
    for k in 0..256 {
        assert_eq!(both[k], only_a[k] + only_b[k]);
    }
}

#[test]
fn mixer_writes_every_channel_and_scope() {
    let t = tables();
    let mut v = PatchInstance::new(sine_patch(48000, Algorithm::Seven), 440_000);
    v.set_active(true);
    let mut silent = PatchInstance::new(sine_patch(48000, Algorithm::Seven), 880_000);
    silent.set_active(false);
    let mut voices = vec![v, silent];
    let mut data = vec![7i32; 60];
    let mut scope = ScopeRing::new(4);
    write_to_buffer(&mut data, 3, &mut voices, &t, &mut scope);
    for f in 0..20 {
        assert_eq!(data[3 * f], data[3 * f + 1]);
        assert_eq!(data[3 * f], data[3 * f + 2]);
    }
    assert_eq!(scope.to_vec(), vec![data[48] - 7, data[51] - 7, data[54] - 7, data[57] - 7]);
    let mut fresh = PatchInstance::new(sine_patch(48000, Algorithm::Seven), 440_000);
    fresh.set_active(true);
    let zeroed = mix(&mut vec![fresh], &t, 20);
    for f in 0..20 {
        assert_eq!(data[3 * f], 7 + zeroed[f]);
    }
    assert_eq!(voices[1].clock, 0);
    assert_eq!(voices[0].clock, 20);
}

#[test]
fn exact_formulas() {
    assert_eq!(detune_as_multiplier(0), 1_000_000_000);
    assert_eq!(detune_as_multiplier(100), 1_059_463_100);
    assert_eq!(detune_as_multiplier(-100), 943_874_300);
    assert_eq!(get_delta_p(1_000_000, 48000, FrequencyMultiplier::one(), 0), 89478485);
    let octave_up = FrequencyMultiplier::new(11).unwrap();
    assert_eq!(get_delta_p(1_000_000, 48000, octave_up, 0), 178956970);
    assert_eq!(FrequencyMultiplier::new(16).unwrap().multiply(1000), 4000);
    assert_eq!(FrequencyMultiplier::new(0).unwrap().ratio(), (1, 16));
    assert_eq!(index_to_frequency(69), Some(440_000));
    assert_eq!(index_to_frequency(57), Some(220_000));
    assert_eq!(index_to_frequency(128), None);
    assert_eq!(cycles_for_rate(255), 1);
    assert_eq!(cycles_for_rate(1), 2048);
    assert_eq!(cycles_for_rate(0), 0);
    assert_eq!(cycles_for_rate(128), 64);
    assert_eq!(FeedbackLevel::Fifteen.as_multiplier(), 8388608);
    assert_eq!(FeedbackLevel::Zero.as_multiplier(), 0);
    assert_eq!(FeedbackLevel::Eight.as_multiplier(), 65536);
    assert_eq!(apply_gain(-32768, GAIN_ONE / 2), -16384);
    assert_eq!(apply_gain(3, GAIN_ONE / 2), 1);
}

#[test]
fn attack_curve_is_proportional() {
    let mut e = Envelope::new(env(255, 255, 0, 0, 0, 0));
    e.key_on();
    e.tick();
    assert_eq!(e.current_attenuation, 1024 - (1024 / 16 + 1));
    e.tick();
    assert_eq!(e.current_attenuation, 959 - (959 / 16 + 1));
}

#[test]
fn decay_reaches_sustain() {
    let mut e = Envelope::new(env(255, 255, 255, 250, 0, 0));
    e.key_on();
    let mut n = 0;
    while e.phase != EnvelopePhase::Sustain {
        e.tick();
        n += 1;
        assert!(n < 5000);
    }
    assert_eq!(e.current_attenuation, ATTENUATION_MAX - 250);
}

#[test]
fn configuration_errors() {
    assert_eq!(FrequencyMultiplier::new(21), Err(ConfigError::FrequencyMultiplier));
    let one = FrequencyMultiplier::one();
    assert_eq!(
        OperatorDefinition::new(Waveform::Sine, one, 101, EnvelopeDefinition::default()),
        Err(ConfigError::Detune)
    );
    assert!(OperatorDefinition::new(Waveform::Sine, one, -100, EnvelopeDefinition::default()).is_ok());
    assert_eq!(Waveform::from_tag(16, 0), None);
    assert_eq!(Waveform::from_tag(11, 0), None);
    assert_eq!(Waveform::pulse(0), None);
    assert_eq!(FeedbackLevel::from_index(16), Err(ConfigError::FeedbackLevel));
    assert_eq!(Algorithm::from_index(8), Err(ConfigError::Algorithm));
    assert_eq!(Algorithm::from_index(7), Ok(Algorithm::Seven));
    assert_eq!(PatchDefinition::new(7999).unwrap_err(), ConfigError::SampleRate);
    let patch = PatchDefinition::new(48000).unwrap();
    let patterns = || (0..8).map(|_| Pattern::empty_pattern(4)).collect::<Vec<_>>();
    assert_eq!(
        SequenceDefinition::new(0, vec![patch], patterns(), 48000).unwrap_err(),
        ConfigError::Tempo
    );
    assert_eq!(
        SequenceDefinition::new(120, vec![patch], patterns()[..7].to_vec(), 48000).unwrap_err(),
        ConfigError::Sequence
    );
    let mut bad_note = patterns();
    bad_note[3].entries[1] = PatternEntry { patch_index: None, key_state: KeyState::Slide(500) };
    assert_eq!(
        SequenceDefinition::new(120, vec![patch], bad_note, 48000).unwrap_err(),
        ConfigError::Sequence
    );
    let mut bad_patch = patterns();
    bad_patch[0].entries[0] = PatternEntry { patch_index: Some(1), key_state: KeyState::Held };
    assert_eq!(
        SequenceDefinition::new(120, vec![patch], bad_patch, 48000).unwrap_err(),
        ConfigError::Sequence
    );
    assert_eq!(
        SequenceDefinition::new(120, vec![patch], patterns(), 100).unwrap_err(),
        ConfigError::SampleRate
    );
    assert!(SequenceDefinition::new(120, vec![patch], patterns(), 48000).is_ok());
    assert_eq!(SequenceDefinition::test_pattern(5).unwrap_err(), ConfigError::SampleRate);
}

#[test]
fn pattern_helpers() {
    let p = Pattern::empty_pattern(5);
    assert_eq!(p.pattern_length(), 5);
    assert!(p.entries.iter().all(|e| e.key_state == KeyState::Released && e.patch_index.is_none()));
    let demo = SequenceDefinition::test_pattern(48000).unwrap();
    assert_eq!(demo.patterns.len(), 8);
    assert_eq!(demo.patterns[0].pattern_length(), 32);
    assert_eq!(demo.patterns[7].pattern_length(), 32);
    assert_eq!(demo.bpm, 120);
}

#[test]
fn slide_keeps_envelopes_running() {
    let t = tables();
    let patch = sine_patch(48000, Algorithm::Seven);
    let mut patterns: Vec<Pattern> = (0..8).map(|_| Pattern::empty_pattern(3)).collect();
    patterns[2].entries[0] = PatternEntry { patch_index: Some(0), key_state: KeyState::Pressed(60) };
    patterns[2].entries[1] = PatternEntry { patch_index: None, key_state: KeyState::Slide(62) };
    let def = SequenceDefinition::new(6000, vec![patch], patterns, 48000).unwrap();
    assert_eq!(def.ticks_per_pattern_step, 240);
    let mut seq = SequenceInstance::new(def);
    for _ in 0..240 {
        seq.next(&t);
    }
    let pressed = seq.output[2].unwrap();
    assert!(pressed.active);
    assert_eq!(pressed.base_frequency, index_to_frequency(60).unwrap());
    for _ in 0..240 {
        seq.next(&t);
    }
    let slid = seq.output[2].unwrap();
    assert!(slid.active);
    assert_eq!(slid.base_frequency, index_to_frequency(62).unwrap());
    assert_eq!(slid.operators[0].envelope.phase, EnvelopePhase::Decay);
    for _ in 0..240 {
        seq.next(&t);
    }
    assert!(!seq.output[2].unwrap().active);
    assert!(seq.output[0].is_none());
    for _ in 0..240 {
        seq.next(&t);
    }
    assert_eq!(seq.pattern_index, 1);
}

#[test]
fn voice_setters() {
    let t = tables();
    let mut v = PatchInstance::new(sine_patch(48000, Algorithm::Zero), 440_000);
    assert!(!v.get_active());
    v.set_active(true);
    assert!(v.get_active());
    for _ in 0..10 {
        v.next_sample_with(&t, [0; 4]);
    }
    let phase = v.operators[2].clock;
    v.set_waveform(2, Waveform::Saw);
    assert_eq!(v.definition.operators[2].waveform, Waveform::Saw);
    assert_eq!(v.operators[2].definition.waveform, Waveform::Saw);
    assert_eq!(v.operators[2].clock, phase);
    assert_eq!(v.operators[1].definition.waveform, Waveform::Sine);
    v.set_algorithm(Algorithm::Seven);
    assert_eq!(v.definition.algorithm, Algorithm::Seven);
    v.set_feedback(FeedbackLevel::Three);
    assert_eq!(v.definition.feedback, FeedbackLevel::Three);
    v.set_frequency(880_000);
    assert_eq!(v.base_frequency, 880_000);
    v.set_active(false);
    assert!(!v.get_active());
    assert_eq!(v.operators[0].envelope.phase, EnvelopePhase::Release);
}

#[test]
fn mixer_adds_to_what_is_there() {
    let t = tables();
    let mut v = PatchInstance::new(sine_patch(48000, Algorithm::Seven), 440_000);
    v.set_active(true);
    let alone = mix(&mut vec![v], &t, 64);
    let mut data: Vec<i32> = (0..64).map(|k| k as i32 * 1000 - 30000).collect();
    let mut scope = ScopeRing::new(8);
    write_to_buffer(&mut data, 1, &mut vec![v], &t, &mut scope);
    for k in 0..64 {
        assert_eq!(data[k], k as i32 * 1000 - 30000 + alone[k]);
    }
}

#[test]
fn sequence_writes_additively() {
    let t = tables();
    let def = SequenceDefinition::new(
        6000,
        vec![sine_patch(48000, Algorithm::Seven)],
        {
            let mut p: Vec<Pattern> = (0..8).map(|_| Pattern::empty_pattern(2)).collect();
            p[0].entries[0] = PatternEntry { patch_index: Some(0), key_state: KeyState::Pressed(69) };
            p[0].entries[1] = PatternEntry { patch_index: None, key_state: KeyState::Held };
            p
        },
        48000,
    )
    .unwrap();
    let mut reference = SequenceInstance::new(def.clone());
    let expected: Vec<i32> = (0..600).map(|_| reference.next(&t)).collect();
    assert!(expected.iter().any(|s| *s != 0));
    let mut seq = SequenceInstance::new(def);
    let mut data = vec![5i32; 1200];
    let mut scope = ScopeRing::new(3);
    seq.write_to_buffer(&mut data, 2, &t, &mut scope);
    for f in 0..600 {
        assert_eq!(data[2 * f], 5 + expected[f]);
        assert_eq!(data[2 * f + 1], 5 + expected[f]);
    }
    assert_eq!(seq.last_output, expected[599]);
    assert_eq!(scope.to_vec(), vec![expected[597], expected[598], expected[599]]);
}

#[test]
fn high_sample_rates_are_supported() {
    let d = PatchDefinition::new(4_000_000).unwrap();
    assert_eq!(d.sample_rate, 4_000_000);
    assert_eq!(get_delta_p(1_000_000, 4_000_000, FrequencyMultiplier::one(), 0), 1073741);
    let t = tables();
    let mut v = PatchInstance::new(d, 440_000);
    v.set_active(true);
    assert!(v.next_sample_with(&t, [0; 4]).abs() <= 4 * SAMPLE_ONE);
    assert_eq!(SequenceDefinition::test_pattern(4_000_000).unwrap().ticks_per_pattern_step, 1_000_000);
}

#[test]
fn set_definition_keeps_voice_state() {
    let t = tables();
    let mut v = PatchInstance::new(sine_patch(48000, Algorithm::Zero), 440_000);
    v.set_active(true);
    for _ in 0..20 {
        v.next_sample_with(&t, [0; 4]);
    }
    let before = v;
    let mut d = sine_patch(48000, Algorithm::Three);
    d.operators[1] = OperatorDefinition::sine(env(100, 9, 9, 9, 9, 9));
    v.set_definition(d);
    assert_eq!(v.prev_feedback1, before.prev_feedback1);
    assert_eq!(v.prev_feedback2, before.prev_feedback2);
    assert_eq!(v.clock, before.clock);
    assert_eq!(v.operators[1].clock, before.operators[1].clock);
    assert_eq!(v.operators[1].envelope.current_attenuation, before.operators[1].envelope.current_attenuation);
    assert_eq!(v.operators[1].envelope.phase, before.operators[1].envelope.phase);
    assert_eq!(v.operators[1].envelope.cycles_per_tick, cycles_for_rate(9));
    assert_eq!(v.operators[1].envelope.clock, 0);
    assert_eq!(v.definition.algorithm, Algorithm::Three);
}

#[test]
fn new_sequence_is_silent() {
    let seq = SequenceInstance::new(SequenceDefinition::test_pattern(48000).unwrap());
    assert_eq!(seq.last_output, 0);
    assert!(seq.output.iter().all(|o| o.is_none()));
    assert!(seq.current_patch.iter().all(|p| p.is_none()));
}

#[test]
fn noise_voice_mixes_within_range() {
    let t = tables();
    let mut d = sine_patch(48000, Algorithm::Seven);
    d.operators[0].waveform = Waveform::Noise;
    let mut v = PatchInstance::new(d, 440_000);
    v.set_active(true);
    let data = mix(&mut vec![v], &t, 500);
    assert!(data.iter().all(|s| s.abs() <= 4 * SAMPLE_ONE));
    assert!(data[200..].iter().any(|s| *s != data[200]));
}
