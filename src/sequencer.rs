//! A pattern sequencer: eight channels of stepped key events, each channel
//! playing one voice.
use vstd::prelude::*;
use crate::{ConfigError, SAMPLE_ONE};
use crate::mixer::{
    BUFFER_HEADROOM, ScopeRing, add_frame, added, frame_amounts, frames_written, lemma_frame_written,
    lemma_noise_irrelevant, pushed_all, quiet_noise,
};
use crate::operator::sample_rate_ok;
use crate::patch::{
    PatchDefinition, PatchInstance, activated, fresh_voice, noise_ok, noiseless, voice_next,
    voice_sample,
};
use crate::tables::Tables;
use crate::waveform::Waveform;

verus! {

/// Channels of a sequence.
pub const MUSIC_CHANNEL_COUNT: usize = 8;

/// Pattern steps per beat.
pub const ENTRIES_PER_BEAT: u32 = 2;

/// Notes `0..NOTE_COUNT` have a frequency; note 69 is A at 440 Hz.
pub const NOTE_COUNT: usize = 128;

/// What a pattern step does to its channel's key.
#[derive(Clone, Copy, Debug, PartialEq, Eq, Structural)]
pub enum KeyState {
    /// Release the key.
    Released,
    /// Leave the key as it is.
    Held,
    /// Move to a note without restarting the envelopes.
    Slide(usize),
    /// Release, move to a note and press again.
    Pressed(usize),
}

/// One step of a pattern: an optional patch to switch to, and a key event.
#[derive(Clone, Copy, Debug, PartialEq, Eq, Structural)]
pub struct PatternEntry {
    pub patch_index: Option<usize>,
    pub key_state: KeyState,
}

/// The steps of one channel.
#[derive(Clone, Debug)]
pub struct Pattern {
    pub entries: Vec<PatternEntry>,
}

/// A step that changes nothing but releasing the key.
pub open spec fn rest() -> PatternEntry {
    PatternEntry { patch_index: None, key_state: KeyState::Released }
}

impl Pattern {
    pub fn pattern_length(&self) -> (r: usize)
        ensures
            r == self.entries.len(),
    {
        self.entries.len()
    }

    /// A pattern of `len` steps that only release the key.
    pub fn empty_pattern(len: usize) -> (r: Self)
        ensures
            r.entries@ == Seq::new(len as nat, |j: int| rest()),
    {
        let mut entries: Vec<PatternEntry> = Vec::new();
        let mut j: usize = 0;
        while j < len
            invariant
                j <= len,
                entries@ == Seq::new(j as nat, |k: int| rest()),
            decreases len - j,
        {
            entries.push(PatternEntry { patch_index: None, key_state: KeyState::Released });
            j = j + 1;
            assert(entries@ =~= Seq::new(j as nat, |k: int| rest()));
        }
        Pattern { entries }
    }
}

/// The frequency in millihertz of note `120 + k`, the top octave.
pub open spec fn top_octave(k: int) -> u32 {
    if k == 0 {
        8372018
    } else if k == 1 {
        8869844
    } else if k == 2 {
        9397273
    } else if k == 3 {
        9956063
    } else if k == 4 {
        10548082
    } else if k == 5 {
        11175303
    } else if k == 6 {
        11839822
    } else if k == 7 {
        12543854
    } else if k == 8 {
        13289750
    } else if k == 9 {
        14080000
    } else if k == 10 {
        14917240
    } else {
        15804266
    }
}

/// `x` halved `s` times, rounding down each time.
pub open spec fn halved(x: int, s: nat) -> int
    decreases s,
{
    if s == 0 {
        x
    } else {
        halved(x / 2, (s - 1) as nat)
    }
}

/// The frequency in millihertz of note `n`: `440 · 2^((n - 69) / 12)` Hz,
/// taken from the top octave and halved once per octave below it.
pub open spec fn note_frequency(n: int) -> int {
    halved(top_octave(n % 12) as int, (10 - n / 12) as nat)
}

/// The frequency of note `index` in millihertz, or `None` past the last
/// note.
pub fn index_to_frequency(index: usize) -> (r: Option<u32>)
    ensures
        index < NOTE_COUNT <==> r is Some,
        r is Some ==> r->0 == note_frequency(index as int),
{
    if index >= NOTE_COUNT {
        return None;
    }
    let mut f: u32 = match index % 12 {
        0 => 8372018,
        1 => 8869844,
        2 => 9397273,
        3 => 9956063,
        4 => 10548082,
        5 => 11175303,
        6 => 11839822,
        7 => 12543854,
        8 => 13289750,
        9 => 14080000,
        10 => 14917240,
        _ => 15804266,
    };
    let mut s: usize = 10 - index / 12;
    while s > 0
        invariant
            halved(f as int, s as nat) == note_frequency(index as int),
        decreases s,
    {
        f = f / 2;
        s = s - 1;
    }
    Some(f)
}

/// The step is valid: its patch exists and its note has a frequency.
pub open spec fn entry_ok(e: PatternEntry, patch_count: nat) -> bool {
    &&& (e.patch_index is Some ==> e.patch_index->0 < patch_count)
    &&& match e.key_state {
        KeyState::Slide(n) => n < NOTE_COUNT,
        KeyState::Pressed(n) => n < NOTE_COUNT,
        _ => true,
    }
}

/// Eight patterns of one common, positive length, every step valid.
pub open spec fn patterns_ok(ps: Seq<Pattern>, patch_count: nat) -> bool {
    &&& ps.len() == MUSIC_CHANNEL_COUNT
    &&& ps[0].entries.len() >= 1
    &&& forall|c: int|
        0 <= c < ps.len() ==> (#[trigger] ps[c]).entries.len() == ps[0].entries.len()
    &&& forall|c: int, j: int|
        0 <= c < ps.len() && 0 <= j < ps[c].entries.len() ==> entry_ok(#[trigger] ps[c].entries@[j], patch_count)
}

/// Every patch is valid and plays at `sample_rate`.
pub open spec fn patches_ok(ds: Seq<PatchDefinition>, sample_rate: u32) -> bool {
    forall|i: int| 0 <= i < ds.len() ==> (#[trigger] ds[i]).wf() && ds[i].sample_rate == sample_rate
}

/// Samples per pattern step: `sample_rate · 60 / (bpm · ENTRIES_PER_BEAT)`.
pub open spec fn step_ticks(bpm: u32, sample_rate: u32) -> int {
    (sample_rate as int * 60) / (bpm as int * ENTRIES_PER_BEAT as int)
}

/// A tempo for which a step lasts at least one sample, and its samples fit
/// a `u32`.
pub open spec fn tempo_ok(bpm: u32, sample_rate: u32) -> bool {
    bpm > 0 && 1 <= step_ticks(bpm, sample_rate) <= u32::MAX
}

/// A sequence: patches, one pattern per channel, and a tempo.
#[derive(Clone, Debug)]
pub struct SequenceDefinition {
    pub bpm: u32,
    pub patches: Vec<PatchDefinition>,
    pub patterns: Vec<Pattern>,
    pub ticks_per_pattern_step: u32,
    pub sample_rate: u32,
}

fn check_patches(ds: &Vec<PatchDefinition>, sample_rate: u32) -> (r: bool)
    ensures
        r == patches_ok(ds@, sample_rate),
{
    let mut i: usize = 0;
    while i < ds.len()
        invariant
            i <= ds.len(),
            forall|k: int| 0 <= k < i ==> (#[trigger] ds@[k]).wf() && ds@[k].sample_rate == sample_rate,
        decreases ds.len() - i,
    {
        if !ds[i].check() || ds[i].sample_rate != sample_rate {
            return false;
        }
        i = i + 1;
    }
    true
}

impl PatchDefinition {
    /// Whether this definition is valid.
    pub fn check(&self) -> (r: bool)
        ensures
            r == self.wf(),
    {
        if self.sample_rate < crate::MIN_SAMPLE_RATE {
            return false;
        }
        let mut i: usize = 0;
        while i < 4
            invariant
                i <= 4,
                sample_rate_ok(self.sample_rate),
                forall|k: int| 0 <= k < i ==> #[trigger] self.operators@[k].wf(),
            decreases 4 - i,
        {
            let d = self.operators[i];
            assert(d == self.operators@[i as int]);
            if d.frequency_multiplier.index > crate::operator::FREQUENCY_MULTIPLIER_MAX || d.detune
                < -crate::operator::DETUNE_MAX || d.detune > crate::operator::DETUNE_MAX {
                assert(!self.operators@[i as int].wf());
                return false;
            }
            i = i + 1;
        }
        true
    }
}

fn check_entry(e: PatternEntry, patch_count: usize) -> (r: bool)
    ensures
        r == entry_ok(e, patch_count as nat),
{
    let patch_ok = match e.patch_index {
        Some(k) => k < patch_count,
        None => true,
    };
    let note_ok = match e.key_state {
        KeyState::Slide(n) => n < NOTE_COUNT,
        KeyState::Pressed(n) => n < NOTE_COUNT,
        _ => true,
    };
    patch_ok && note_ok
}

fn check_patterns(ps: &Vec<Pattern>, patch_count: usize) -> (r: bool)
    ensures
        r == patterns_ok(ps@, patch_count as nat),
{
    if ps.len() != MUSIC_CHANNEL_COUNT || ps[0].entries.len() == 0 {
        return false;
    }
    let len = ps[0].entries.len();
    let mut c: usize = 0;
    while c < ps.len()
        invariant
            ps.len() == MUSIC_CHANNEL_COUNT,
            len == ps@[0].entries.len(),
            c <= ps.len(),
            forall|k: int| 0 <= k < c ==> (#[trigger] ps@[k]).entries.len() == len,
            forall|k: int, j: int|
                0 <= k < c && 0 <= j < ps@[k].entries.len() ==> entry_ok(#[trigger] ps@[k].entries@[j], patch_count as nat),
        decreases ps.len() - c,
    {
        if ps[c].entries.len() != len {
            return false;
        }
        let mut j: usize = 0;
        while j < len
            invariant
                c < ps.len(),
                len == ps@[c as int].entries.len(),
                j <= len,
                forall|i: int| 0 <= i < j ==> entry_ok(#[trigger] ps@[c as int].entries@[i], patch_count as nat),
            decreases len - j,
        {
            if !check_entry(ps[c].entries[j], patch_count) {
                return false;
            }
            j = j + 1;
        }
        c = c + 1;
    }
    true
}

/// A step that presses note `n`.
pub open spec fn press(n: usize) -> PatternEntry {
    PatternEntry { patch_index: None, key_state: KeyState::Pressed(n) }
}

/// A step that holds the key.
pub open spec fn hold() -> PatternEntry {
    PatternEntry { patch_index: None, key_state: KeyState::Held }
}

/// A note pressed, held for two more steps and released.
pub open spec fn long_note(n: usize) -> Seq<PatternEntry> {
    seq![press(n), hold(), hold(), rest()]
}

/// The demonstration melody: two long 49s, a long and a short 45, four long
/// 47s and a short 47, the first step selecting patch 0.
pub open spec fn demo_entries() -> Seq<PatternEntry> {
    seq![PatternEntry { patch_index: Some(0), key_state: KeyState::Pressed(49) }, hold(), hold(), rest()]
        + long_note(49) + long_note(45) + seq![press(45), rest()] + long_note(47) + long_note(47)
        + long_note(47) + long_note(47) + seq![press(47), rest()]
}

fn push_long_note(v: &mut Vec<PatternEntry>, n: usize)
    ensures
        final(v)@ == old(v)@ + long_note(n),
{
    v.push(PatternEntry { patch_index: None, key_state: KeyState::Pressed(n) });
    v.push(PatternEntry { patch_index: None, key_state: KeyState::Held });
    v.push(PatternEntry { patch_index: None, key_state: KeyState::Held });
    v.push(PatternEntry { patch_index: None, key_state: KeyState::Released });
    assert(v@ =~= old(v)@ + long_note(n));
}

fn push_short_note(v: &mut Vec<PatternEntry>, n: usize)
    ensures
        final(v)@ == old(v)@ + seq![press(n), rest()],
{
    v.push(PatternEntry { patch_index: None, key_state: KeyState::Pressed(n) });
    v.push(PatternEntry { patch_index: None, key_state: KeyState::Released });
    assert(v@ =~= old(v)@ + seq![press(n), rest()]);
}

impl SequenceDefinition {
    pub open spec fn wf(&self) -> bool {
        &&& sample_rate_ok(self.sample_rate)
        &&& tempo_ok(self.bpm, self.sample_rate)
        &&& self.ticks_per_pattern_step == step_ticks(self.bpm, self.sample_rate)
        &&& patches_ok(self.patches@, self.sample_rate)
        &&& patterns_ok(self.patterns@, self.patches.len() as nat)
    }

    /// The number of steps of every pattern.
    pub open spec fn length(&self) -> int {
        self.patterns@[0].entries.len() as int
    }

    /// A sequence at `bpm` beats per minute for `sample_rate` samples per
    /// second. Refused: a sample rate out of range; a tempo of zero or one
    /// with steps shorter than a sample; patches that are invalid or play at
    /// another rate; patterns that are not eight, not of one positive length,
    /// or name a patch or a note that does not exist.
    pub fn new(bpm: u32, patches: Vec<PatchDefinition>, patterns: Vec<Pattern>, sample_rate: u32) -> (r:
        Result<Self, ConfigError>)
        ensures
            !sample_rate_ok(sample_rate) ==> r == Err::<Self, ConfigError>(ConfigError::SampleRate),
            sample_rate_ok(sample_rate) && !tempo_ok(bpm, sample_rate) ==> r == Err::<Self, ConfigError>(
                ConfigError::Tempo,
            ),
            sample_rate_ok(sample_rate) && tempo_ok(bpm, sample_rate) && !(patches_ok(patches@, sample_rate)
                && patterns_ok(patterns@, patches.len() as nat)) ==> r == Err::<Self, ConfigError>(
                ConfigError::Sequence,
            ),
            r is Ok ==> {
                &&& r->Ok_0.wf()
                &&& r->Ok_0.bpm == bpm
                &&& r->Ok_0.sample_rate == sample_rate
                &&& r->Ok_0.patches@ == patches@
                &&& r->Ok_0.patterns@ == patterns@
            },
            (sample_rate_ok(sample_rate) && tempo_ok(bpm, sample_rate) && patches_ok(patches@, sample_rate)
                && patterns_ok(patterns@, patches.len() as nat)) ==> r is Ok,
    {
        if sample_rate < crate::MIN_SAMPLE_RATE {
            return Err(ConfigError::SampleRate);
        }
        if bpm == 0 {
            return Err(ConfigError::Tempo);
        }
        let denominator: u64 = bpm as u64 * 2;
        let ticks: u64 = (sample_rate as u64 * 60) / denominator;
        if ticks == 0 || ticks > u32::MAX as u64 {
            return Err(ConfigError::Tempo);
        }
        if !check_patches(&patches, sample_rate) || !check_patterns(&patterns, patches.len()) {
            return Err(ConfigError::Sequence);
        }
        Ok(SequenceDefinition { bpm, patches, patterns, ticks_per_pattern_step: ticks as u32, sample_rate })
    }

    /// The demonstration sequence at 120 beats per minute: one patch, the
    /// melody of `demo_entries` on channel 0, seven channels of rests.
    #[verifier::rlimit(40)]
    pub fn test_pattern(sample_rate: u32) -> (r: Result<Self, ConfigError>)
        ensures
            sample_rate_ok(sample_rate) <==> r is Ok,
            r is Ok ==> {
                &&& r->Ok_0.wf()
                &&& r->Ok_0.bpm == 120
                &&& r->Ok_0.sample_rate == sample_rate
                &&& r->Ok_0.patches.len() == 1
                &&& r->Ok_0.patterns@[0].entries@ == demo_entries()
                &&& forall|c: int|
                    1 <= c < MUSIC_CHANNEL_COUNT ==> (#[trigger] r->Ok_0.patterns@[c]).entries@ == Seq::new(
                        32,
                        |j: int| rest(),
                    )
            },
            r is Err ==> r->Err_0 == ConfigError::SampleRate,
    {
        let patch = match PatchDefinition::new(sample_rate) {
            Ok(p) => p,
            Err(e) => return Err(e),
        };
        let mut melody: Vec<PatternEntry> = Vec::new();
        melody.push(PatternEntry { patch_index: Some(0), key_state: KeyState::Pressed(49) });
        melody.push(PatternEntry { patch_index: None, key_state: KeyState::Held });
        melody.push(PatternEntry { patch_index: None, key_state: KeyState::Held });
        melody.push(PatternEntry { patch_index: None, key_state: KeyState::Released });
        push_long_note(&mut melody, 49);
        push_long_note(&mut melody, 45);
        push_short_note(&mut melody, 45);
        push_long_note(&mut melody, 47);
        push_long_note(&mut melody, 47);
        push_long_note(&mut melody, 47);
        push_long_note(&mut melody, 47);
        push_short_note(&mut melody, 47);
        assert(melody@ =~= demo_entries());
        let demo_length = melody.len();
        let mut patterns: Vec<Pattern> = Vec::new();
        patterns.push(Pattern { entries: melody });
        let mut c: usize = 1;
        while c < MUSIC_CHANNEL_COUNT
            invariant
                1 <= c <= MUSIC_CHANNEL_COUNT,
                demo_length == 32,
                patterns.len() == c,
                patterns@[0].entries@ == demo_entries(),
                forall|k: int| 1 <= k < c ==> (#[trigger] patterns@[k]).entries@ == Seq::new(32, |j: int| rest()),
            decreases MUSIC_CHANNEL_COUNT - c,
        {
            patterns.push(Pattern::empty_pattern(demo_length));
            c = c + 1;
        }
        let mut patches: Vec<PatchDefinition> = Vec::new();
        patches.push(patch);
        proof {
            let ps = patterns@;
            assert forall|c: int, j: int|
                0 <= c < ps.len() && 0 <= j < ps[c].entries.len() implies entry_ok(
                #[trigger] ps[c].entries@[j],
                1,
            ) by {
                if c == 0 {
                    assert(ps[0].entries@ == demo_entries());
                } else {
                    assert(ps[c].entries@[j] == rest());
                }
            }
            assert(patches_ok(patches@, sample_rate));
            assert(step_ticks(120, sample_rate) >= 1) by (nonlinear_arith)
                requires
                    sample_rate >= 8000,
            ;
            assert(step_ticks(120, sample_rate) <= u32::MAX) by (nonlinear_arith)
                requires
                    sample_rate <= 0xffff_ffff,
            ;
        }
        SequenceDefinition::new(120, patches, patterns, sample_rate)
    }
}

/// A voice after a key event.
#[verifier::opaque]
pub open spec fn apply_key(v: PatchInstance, key: KeyState) -> PatchInstance {
    match key {
        KeyState::Released => activated(v, false),
        KeyState::Held => v,
        KeyState::Slide(n) => PatchInstance { base_frequency: note_frequency(n as int) as u32, ..v },
        KeyState::Pressed(n) => activated(
            PatchInstance { base_frequency: note_frequency(n as int) as u32, ..activated(v, false) },
            true,
        ),
    }
}

/// A channel after a pattern step: a new voice when the step names a patch
/// other than the one playing, then the key event if a voice is there.
pub open spec fn apply_entry(
    slot: Option<PatchInstance>,
    current: Option<usize>,
    e: PatternEntry,
    patches: Seq<PatchDefinition>,
) -> (Option<PatchInstance>, Option<usize>) {
    let (voice, patch) = match e.patch_index {
        Some(k) => if current == Some(k) {
            (slot, current)
        } else {
            (Some(fresh_voice(patches[k as int], 0)), Some(k))
        },
        None => (slot, current),
    };
    match voice {
        Some(v) => (Some(apply_key(v, e.key_state)), patch),
        None => (None, patch),
    }
}

/// A channel's voice after one sample.
pub open spec fn channel_next(slot: Option<PatchInstance>, t: Tables) -> Option<PatchInstance> {
    match slot {
        Some(v) => Some(voice_next(v, t, quiet_noise())),
        None => None,
    }
}

/// The two channels hold voices that agree in everything but the last
/// operator-0 sample, the one field a drawn noise value can change.
pub open spec fn matches_but_feedback(x: Option<PatchInstance>, y: Option<PatchInstance>) -> bool {
    match (x, y) {
        (Some(a), Some(b)) => a == (PatchInstance { prev_feedback1: a.prev_feedback1, ..b }),
        (None, None) => true,
        _ => false,
    }
}

/// A channel's voice after one sample, drawing `n`.
#[verifier::opaque]
pub open spec fn channel_next_with(slot: Option<PatchInstance>, t: Tables, n: Seq<i32>) -> Option<PatchInstance> {
    match slot {
        Some(v) => Some(voice_next(v, t, n)),
        None => None,
    }
}

/// A channel's sample, drawing `n`.
#[verifier::opaque]
pub open spec fn channel_sample_with(slot: Option<PatchInstance>, t: Tables, n: Seq<i32>) -> int {
    match slot {
        Some(v) => voice_sample(v, t, n),
        None => 0,
    }
}

/// The sum of the first `k` channels' samples, channel `c` drawing `ns[c]`.
pub open spec fn channels_sum_with(slots: Seq<Option<PatchInstance>>, t: Tables, ns: Seq<Seq<i32>>, k: int) -> int
    decreases k,
{
    if k <= 0 {
        0
    } else {
        channels_sum_with(slots, t, ns, k - 1) + channel_sample_with(slots[k - 1], t, ns[k - 1])
    }
}

proof fn lemma_channels_sum_with_prefix(
    slots: Seq<Option<PatchInstance>>,
    t: Tables,
    ns: Seq<Seq<i32>>,
    x: Seq<i32>,
    k: int,
)
    requires
        0 <= k <= ns.len(),
    ensures
        channels_sum_with(slots, t, ns.push(x), k) == channels_sum_with(slots, t, ns, k),
    decreases k,
{
    if k > 0 {
        lemma_channels_sum_with_prefix(slots, t, ns, x, k - 1);
        assert(ns.push(x)[k - 1] == ns[k - 1]);
    }
}

/// One valid noise array per channel.
pub open spec fn channel_noises_ok(ns: Seq<Seq<i32>>) -> bool {
    ns.len() == MUSIC_CHANNEL_COUNT && forall|c: int| 0 <= c < MUSIC_CHANNEL_COUNT ==> noise_ok(#[trigger] ns[c])
}

/// A channel's sample.
pub open spec fn channel_sample(slot: Option<PatchInstance>, t: Tables) -> int {
    match slot {
        Some(v) => voice_sample(v, t, quiet_noise()),
        None => 0,
    }
}

/// The sum of the first `k` channels' samples.
pub open spec fn channels_sum(slots: Seq<Option<PatchInstance>>, t: Tables, k: int) -> int
    decreases k,
{
    if k <= 0 {
        0
    } else {
        channels_sum(slots, t, k - 1) + channel_sample(slots[k - 1], t)
    }
}

/// A channel's voice and patch after the clock counts one sample: the step
/// at `played_index` applied when the clock reaches a step boundary,
/// unchanged otherwise.
pub open spec fn after_step(s: SequenceInstance, c: int) -> (Option<PatchInstance>, Option<usize>) {
    if is_step(s) {
        apply_entry(
            s.output@[c],
            s.current_patch@[c],
            s.definition.patterns@[c].entries@[s.played_index()],
            s.definition.patches@,
        )
    } else {
        (s.output@[c], s.current_patch@[c])
    }
}

/// The channels' voices after the step part of a sample.
pub open spec fn stepped_voices(s: SequenceInstance) -> Seq<Option<PatchInstance>> {
    Seq::new(MUSIC_CHANNEL_COUNT as nat, |c: int| after_step(s, c).0)
}

/// The clock reaches a step boundary with the next sample.
pub open spec fn is_step(s: SequenceInstance) -> bool {
    s.clock + 1 == s.definition.ticks_per_pattern_step
}

/// A running sequence.
pub struct SequenceInstance {
    pub definition: SequenceDefinition,
    /// The voice of each channel, once a step has chosen its patch.
    pub output: Vec<Option<PatchInstance>>,
    /// The patch index each channel's voice plays.
    pub current_patch: Vec<Option<usize>>,
    pub last_output: i32,
    /// Samples since the last step.
    pub clock: u32,
    /// The step to play next; equal to the length once the last has played.
    pub pattern_index: usize,
}

/// The parts of a running sequence that change from one sample to the next.
pub struct SequenceState {
    pub output: Seq<Option<PatchInstance>>,
    pub current_patch: Seq<Option<usize>>,
    pub clock: u32,
    pub pattern_index: usize,
}

/// The changing parts of `s`.
pub open spec fn state_of(s: SequenceInstance) -> SequenceState {
    SequenceState {
        output: s.output@,
        current_patch: s.current_patch@,
        clock: s.clock,
        pattern_index: s.pattern_index,
    }
}

/// The clock of `st` reaches a step boundary with the next sample.
pub open spec fn step_due(d: SequenceDefinition, st: SequenceState) -> bool {
    st.clock + 1 == d.ticks_per_pattern_step
}

/// The step played at the next boundary: the first after the last.
pub open spec fn next_played(d: SequenceDefinition, st: SequenceState) -> int {
    if st.pattern_index == d.length() {
        0
    } else {
        st.pattern_index as int
    }
}

/// Channel `c`'s voice and patch once the clock has counted the next sample.
pub open spec fn counted_channel(d: SequenceDefinition, st: SequenceState, c: int) -> (
    Option<PatchInstance>,
    Option<usize>,
) {
    if step_due(d, st) {
        apply_entry(st.output[c], st.current_patch[c], d.patterns@[c].entries@[next_played(d, st)], d.patches@)
    } else {
        (st.output[c], st.current_patch[c])
    }
}

/// The sample a sequence without noise produces next: the sum of its
/// channels' voices once the step part is done.
pub open spec fn state_sample(d: SequenceDefinition, st: SequenceState, t: Tables) -> int {
    channels_sum(
        Seq::new(MUSIC_CHANNEL_COUNT as nat, |c: int| counted_channel(d, st, c).0),
        t,
        MUSIC_CHANNEL_COUNT as int,
    )
}

/// A sequence without noise after one sample.
pub open spec fn state_next(d: SequenceDefinition, st: SequenceState, t: Tables) -> SequenceState {
    SequenceState {
        output: Seq::new(MUSIC_CHANNEL_COUNT as nat, |c: int| channel_next(counted_channel(d, st, c).0, t)),
        current_patch: Seq::new(MUSIC_CHANNEL_COUNT as nat, |c: int| counted_channel(d, st, c).1),
        clock: if step_due(d, st) {
            0
        } else {
            (st.clock + 1) as u32
        },
        pattern_index: if step_due(d, st) {
            (next_played(d, st) + 1) as usize
        } else {
            st.pattern_index
        },
    }
}

/// A sequence without noise after `k` samples.
pub open spec fn states_after(d: SequenceDefinition, st: SequenceState, t: Tables, k: nat) -> SequenceState
    decreases k,
{
    if k == 0 {
        st
    } else {
        state_next(d, states_after(d, st, t, (k - 1) as nat), t)
    }
}

/// Every voice, and every patch a step can start, draws no noise.
pub open spec fn quiet_sequence(s: SequenceInstance) -> bool {
    &&& forall|c: int|
        0 <= c < s.output.len() && (#[trigger] s.output@[c]) is Some ==> noiseless(s.output@[c]->0)
    &&& forall|k: int, i: int|
        0 <= k < s.definition.patches.len() && 0 <= i < 4 ==> (#[trigger] s.definition.patches@[k].operators@[i]).waveform
            != Waveform::Noise
}

impl SequenceInstance {
    pub open spec fn wf(&self) -> bool {
        &&& self.definition.wf()
        &&& self.output.len() == MUSIC_CHANNEL_COUNT
        &&& self.current_patch.len() == MUSIC_CHANNEL_COUNT
        &&& self.clock < self.definition.ticks_per_pattern_step
        &&& self.pattern_index <= self.definition.length()
        &&& forall|c: int|
            0 <= c < MUSIC_CHANNEL_COUNT ==> ((#[trigger] self.output@[c]) is Some <==> self.current_patch@[c]
                is Some)
        &&& forall|c: int|
            0 <= c < MUSIC_CHANNEL_COUNT && (#[trigger] self.output@[c]) is Some ==> {
                &&& self.output@[c]->0.wf()
                &&& self.current_patch@[c]->0 < self.definition.patches.len()
                &&& self.output@[c]->0.definition == self.definition.patches@[self.current_patch@[c]->0 as int]
            }
    }

    /// The step that plays when the clock next reaches a step boundary.
    pub open spec fn played_index(&self) -> int {
        if self.pattern_index == self.definition.length() {
            0
        } else {
            self.pattern_index as int
        }
    }

    /// A silent sequence before its first step.
    pub fn new(definition: SequenceDefinition) -> (r: Self)
        requires
            definition.wf(),
        ensures
            r.wf(),
            r.definition == definition,
            r.clock == 0,
            r.pattern_index == 0,
            r.last_output == 0,
            forall|c: int|
                0 <= c < MUSIC_CHANNEL_COUNT ==> (#[trigger] r.output@[c]) is None && r.current_patch@[c] is None,
    {
        let mut output: Vec<Option<PatchInstance>> = Vec::new();
        let mut current_patch: Vec<Option<usize>> = Vec::new();
        let mut c: usize = 0;
        while c < MUSIC_CHANNEL_COUNT
            invariant
                c <= MUSIC_CHANNEL_COUNT,
                output.len() == c,
                current_patch.len() == c,
                forall|k: int| 0 <= k < c ==> (#[trigger] output@[k]) is None && current_patch@[k] is None,
            decreases MUSIC_CHANNEL_COUNT - c,
        {
            output.push(None);
            current_patch.push(None);
            c = c + 1;
        }
        SequenceInstance { definition, output, current_patch, last_output: 0, clock: 0, pattern_index: 0 }
    }

    /// Plays step `index` on every channel.
    #[verifier::rlimit(40)]
    fn apply_step(&mut self, index: usize)
        requires
            old(self).wf(),
            index < old(self).definition.length(),
        ensures
            final(self).wf(),
            final(self).definition == old(self).definition,
            final(self).clock == old(self).clock,
            final(self).pattern_index == old(self).pattern_index,
            final(self).last_output == old(self).last_output,
            forall|c: int|
                0 <= c < MUSIC_CHANNEL_COUNT ==> (#[trigger] final(self).output@[c], final(self).current_patch@[c])
                    == apply_entry(
                    old(self).output@[c],
                    old(self).current_patch@[c],
                    old(self).definition.patterns@[c].entries@[index as int],
                    old(self).definition.patches@,
                ),
            quiet_sequence(*old(self)) ==> quiet_sequence(*final(self)),
    {
        let mut c: usize = 0;
        while c < MUSIC_CHANNEL_COUNT
            invariant
                c <= MUSIC_CHANNEL_COUNT,
                index < old(self).definition.length(),
                self.definition == old(self).definition,
                self.clock == old(self).clock,
                self.pattern_index == old(self).pattern_index,
                self.last_output == old(self).last_output,
                self.wf(),
                forall|k: int|
                    0 <= k < c ==> (#[trigger] self.output@[k], self.current_patch@[k]) == apply_entry(
                        old(self).output@[k],
                        old(self).current_patch@[k],
                        old(self).definition.patterns@[k].entries@[index as int],
                        old(self).definition.patches@,
                    ),
                forall|k: int| c <= k < MUSIC_CHANNEL_COUNT ==> #[trigger] self.output@[k] == old(self).output@[k],
                forall|k: int|
                    c <= k < MUSIC_CHANNEL_COUNT ==> #[trigger] self.current_patch@[k] == old(self).current_patch@[k],
                quiet_sequence(*old(self)) ==> quiet_sequence(*self),
            decreases MUSIC_CHANNEL_COUNT - c,
        {
            let ghost prev = *self;
            self.apply_channel(c, index);
            proof {
                assert forall|k: int|
                    0 <= k < c + 1 implies (#[trigger] self.output@[k], self.current_patch@[k]) == apply_entry(
                    old(self).output@[k],
                    old(self).current_patch@[k],
                    old(self).definition.patterns@[k].entries@[index as int],
                    old(self).definition.patches@,
                ) by {
                    if k < c {
                        assert(self.output@[k] == prev.output@[k]);
                        assert(self.current_patch@[k] == prev.current_patch@[k]);
                    } else {
                        assert(prev.output@[k] == old(self).output@[k]);
                        assert(prev.current_patch@[k] == old(self).current_patch@[k]);
                    }
                }
                assert forall|k: int| c + 1 <= k < MUSIC_CHANNEL_COUNT implies #[trigger] self.output@[k]
                    == old(self).output@[k] by {
                    assert(self.output@[k] == prev.output@[k]);
                    assert(prev.output@[k] == old(self).output@[k]);
                }
                assert forall|k: int| c + 1 <= k < MUSIC_CHANNEL_COUNT implies #[trigger] self.current_patch@[k]
                    == old(self).current_patch@[k] by {
                    assert(self.output@[k] == prev.output@[k]);
                    assert(self.current_patch@[k] == prev.current_patch@[k]);
                    assert(prev.current_patch@[k] == old(self).current_patch@[k]);
                }
            }
            c = c + 1;
        }
    }

    /// Plays step `index` on channel `c`.
    #[verifier::rlimit(40)]
    fn apply_channel(&mut self, c: usize, index: usize)
        requires
            old(self).wf(),
            c < MUSIC_CHANNEL_COUNT,
            index < old(self).definition.length(),
        ensures
            final(self).wf(),
            final(self).definition == old(self).definition,
            final(self).clock == old(self).clock,
            final(self).pattern_index == old(self).pattern_index,
            final(self).last_output == old(self).last_output,
            (final(self).output@[c as int], final(self).current_patch@[c as int]) == apply_entry(
                old(self).output@[c as int],
                old(self).current_patch@[c as int],
                old(self).definition.patterns@[c as int].entries@[index as int],
                old(self).definition.patches@,
            ),
            forall|k: int|
                0 <= k < MUSIC_CHANNEL_COUNT && k != c ==> #[trigger] final(self).output@[k] == old(self).output@[k]
                    && final(self).current_patch@[k] == old(self).current_patch@[k],
            quiet_sequence(*old(self)) ==> quiet_sequence(*final(self)),
    {
        let ghost ps = self.definition.patterns@;
        proof {
            assert(ps[c as int].entries.len() == ps[0].entries.len());
            assert(entry_ok(ps[c as int].entries@[index as int], self.definition.patches.len() as nat));
        }
        let entry = self.definition.patterns[c].entries[index];
        let mut slot = self.output[c];
        let mut current = self.current_patch[c];
        if let Some(k) = entry.patch_index {
            if current != Some(k) {
                slot = Some(PatchInstance::new(self.definition.patches[k], 0));
                current = Some(k);
            }
        }
        slot = match slot {
            Some(v) => {
                let mut v = v;
                apply_key_to(&mut v, entry.key_state);
                Some(v)
            },
            None => None,
        };
        proof {
            if quiet_sequence(*old(self)) && entry.patch_index is Some && old(self).current_patch@[c as int]
                != entry.patch_index {
                let k = entry.patch_index->0 as int;
                assert forall|i: int| 0 <= i < 4 implies (#[trigger] fresh_voice(
                    self.definition.patches@[k],
                    0,
                ).operators@[i]).definition.waveform != Waveform::Noise by {
                    assert(self.definition.patches@[k].operators@[i].waveform != Waveform::Noise);
                }
            }
        }
        self.output.set(c, slot);
        self.current_patch.set(c, current);
        proof {
            assert forall|k: int|
                0 <= k < MUSIC_CHANNEL_COUNT && k != c implies #[trigger] self.output@[k] == old(self).output@[k]
                && self.current_patch@[k] == old(self).current_patch@[k] by {}
        }
    }

    /// Counts one sample; at a step boundary, plays the next step (wrapping
    /// to the first after the last).
    #[verifier::rlimit(40)]
    fn count_sample(&mut self)
        requires
            old(self).wf(),
        ensures
            final(self).wf(),
            final(self).definition == old(self).definition,
            final(self).last_output == old(self).last_output,
            is_step(*old(self)) ==> final(self).clock == 0 && final(self).pattern_index == old(self).played_index() + 1,
            !is_step(*old(self)) ==> final(self).clock == old(self).clock + 1 && final(self).pattern_index == old(
                self,
            ).pattern_index,
            forall|c: int|
                0 <= c < MUSIC_CHANNEL_COUNT ==> (#[trigger] final(self).output@[c], final(self).current_patch@[c])
                    == after_step(*old(self), c),
            quiet_sequence(*old(self)) ==> quiet_sequence(*final(self)),
    {
        if self.clock + 1 == self.definition.ticks_per_pattern_step {
            self.clock = 0;
            if self.pattern_index == self.definition.patterns[0].entries.len() {
                self.pattern_index = 0;
            }
            let index = self.pattern_index;
            self.apply_step(index);
            self.pattern_index = index + 1;
        } else {
            self.clock = self.clock + 1;
        }
    }

    /// Produces one sample: counts the sample, plays the next step at a step
    /// boundary (wrapping to the first step after the last), then sums one
    /// sample of every channel's voice.
    #[verifier::rlimit(40)]
    pub fn next(&mut self, tables: &Tables) -> (r: i32)
        requires
            old(self).wf(),
            tables.wf(),
        ensures
            final(self).wf(),
            final(self).definition == old(self).definition,
            final(self).last_output == r,
            -4 * SAMPLE_ONE * MUSIC_CHANNEL_COUNT <= r <= 4 * SAMPLE_ONE * MUSIC_CHANNEL_COUNT,
            is_step(*old(self)) ==> final(self).clock == 0 && final(self).pattern_index == old(self).played_index() + 1,
            !is_step(*old(self)) ==> final(self).clock == old(self).clock + 1 && final(self).pattern_index == old(
                self,
            ).pattern_index,
            forall|c: int| 0 <= c < MUSIC_CHANNEL_COUNT ==> (#[trigger] final(self).current_patch@[c]) == after_step(*old(self), c).1,
            forall|c: int|
                0 <= c < MUSIC_CHANNEL_COUNT ==> matches_but_feedback(
                    #[trigger] final(self).output@[c],
                    channel_next(after_step(*old(self), c).0, *tables),
                ),
            exists|ns: Seq<Seq<i32>>|
                channel_noises_ok(ns) && final(self).output@ == Seq::new(
                    MUSIC_CHANNEL_COUNT as nat,
                    |c: int| channel_next_with(after_step(*old(self), c).0, *tables, ns[c]),
                ) && r == channels_sum_with(stepped_voices(*old(self)), *tables, ns, MUSIC_CHANNEL_COUNT as int),
            quiet_sequence(*old(self)) ==> {
                &&& quiet_sequence(*final(self))
                &&& state_of(*final(self)) == state_next(old(self).definition, state_of(*old(self)), *tables)
                &&& r == state_sample(old(self).definition, state_of(*old(self)), *tables)
                &&& r == channels_sum(stepped_voices(*old(self)), *tables, MUSIC_CHANNEL_COUNT as int)
                &&& forall|c: int|
                    0 <= c < MUSIC_CHANNEL_COUNT ==> (#[trigger] final(self).output@[c]) == channel_next(
                        after_step(*old(self), c).0,
                        *tables,
                    )
            },
    {
        let ghost before = *self;
        self.count_sample();
        let ghost mid = *self;
        proof {
            assert forall|c: int| 0 <= c < MUSIC_CHANNEL_COUNT implies (#[trigger] mid.output@[c]) == after_step(before, c).0 by {
                assert((mid.output@[c], mid.current_patch@[c]) == after_step(before, c));
            }
            assert(mid.output@ =~= stepped_voices(before));
        }
        let r = self.mix_channels(tables);
        self.last_output = r;
        proof {
            let d = before.definition;
            let st = state_of(before);
            assert(stepped_voices(before) =~= Seq::new(
                MUSIC_CHANNEL_COUNT as nat,
                |c: int| counted_channel(d, st, c).0,
            ));
            let ns = choose|ns: Seq<Seq<i32>>|
                channel_noises_ok(ns) && self.output@ == Seq::new(
                    MUSIC_CHANNEL_COUNT as nat,
                    |c: int| channel_next_with(mid.output@[c], *tables, ns[c]),
                ) && r == channels_sum_with(mid.output@, *tables, ns, MUSIC_CHANNEL_COUNT as int);
            assert(self.output@ =~= Seq::new(
                MUSIC_CHANNEL_COUNT as nat,
                |c: int| channel_next_with(after_step(before, c).0, *tables, ns[c]),
            ));
            if quiet_sequence(before) {
                let w = state_next(d, st, *tables);
                assert(self.output@ =~= w.output);
                assert forall|c: int| 0 <= c < MUSIC_CHANNEL_COUNT implies #[trigger] self.current_patch@[c] == w.current_patch[c] by {
                    assert((mid.output@[c], mid.current_patch@[c]) == after_step(before, c));
                }
                assert(self.current_patch@ =~= w.current_patch);
            }
            assert forall|c: int| 0 <= c < MUSIC_CHANNEL_COUNT implies (#[trigger] self.current_patch@[c])
                == after_step(before, c).1 by {
                assert((mid.output@[c], mid.current_patch@[c]) == after_step(before, c));
            }
        }
        r
    }

    /// Adds the sequence's next samples to `data`, `channels` samples per
    /// frame: one sample per frame, added to every channel of the frame and
    /// pushed to `scope`. The last frame's sample is left in `last_output`.
    /// Without noise operators, frame `f` adds the sample produced from the
    /// state after `f` samples, and the sequence ends in the state after
    /// `frames` samples.
    #[verifier::rlimit(40)]
    pub fn write_to_buffer(&mut self, data: &mut Vec<i32>, channels: u16, tables: &Tables, scope: &mut ScopeRing)
        requires
            old(self).wf(),
            tables.wf(),
            old(scope).wf(),
            channels >= 1,
            (old(data).len() as int) % (channels as int) == 0,
            forall|i: int| 0 <= i < old(data).len() ==> -BUFFER_HEADROOM <= #[trigger] old(data)@[i] <= BUFFER_HEADROOM,
        ensures
            final(self).wf(),
            final(self).definition == old(self).definition,
            final(data).len() == old(data).len(),
            final(scope).wf(),
            final(scope).capacity() == old(scope).capacity(),
            final(scope).view() == pushed_all(
                old(scope).view(),
                old(scope).capacity(),
                Seq::new(
                    ((old(data).len() as int) / (channels as int)) as nat,
                    |f: int| added(old(data)@, final(data)@, f, channels as int) as i32,
                ),
            ),
            forall|f: int, c: int|
                0 <= f < (old(data).len() as int) / (channels as int) && 0 <= c < channels ==> #[trigger] final(data)@[f * (channels as int) + c] - old(data)@[f * (channels as int) + c] == added(
                    old(data)@,
                    final(data)@,
                    f,
                    channels as int,
                ),
            forall|f: int|
                0 <= f < (old(data).len() as int) / (channels as int) ==> -4 * SAMPLE_ONE * MUSIC_CHANNEL_COUNT
                    <= #[trigger] added(old(data)@, final(data)@, f, channels as int) <= 4 * SAMPLE_ONE
                    * MUSIC_CHANNEL_COUNT,
            old(data).len() > 0 ==> final(self).last_output == added(
                old(data)@,
                final(data)@,
                (old(data).len() as int) / (channels as int) - 1,
                channels as int,
            ),
            old(data).len() == 0 ==> *final(self) == *old(self),
            quiet_sequence(*old(self)) ==> {
                &&& quiet_sequence(*final(self))
                &&& state_of(*final(self)) == states_after(
                    old(self).definition,
                    state_of(*old(self)),
                    *tables,
                    ((old(data).len() as int) / (channels as int)) as nat,
                )
                &&& forall|f: int|
                    0 <= f < (old(data).len() as int) / (channels as int) ==> #[trigger] added(
                        old(data)@,
                        final(data)@,
                        f,
                        channels as int,
                    ) == state_sample(
                        old(self).definition,
                        states_after(old(self).definition, state_of(*old(self)), *tables, f as nat),
                        *tables,
                    )
            },
    {
        let ch: usize = channels as usize;
        let frames: usize = data.len() / ch;
        let ghost orig = data@;
        let ghost start_scope = scope.view();
        let ghost cap = scope.capacity();
        let ghost chi = ch as int;
        let ghost d = self.definition;
        let ghost st0 = state_of(*self);
        proof {
            assert(frames * chi <= orig.len()) by (nonlinear_arith)
                requires
                    frames == (orig.len() as int) / chi,
                    chi >= 1,
            ;
            if orig.len() > 0 {
                assert(frames >= 1) by (nonlinear_arith)
                    requires
                        frames == (orig.len() as int) / chi,
                        chi >= 1,
                        (orig.len() as int) % chi == 0,
                        orig.len() > 0,
                ;
            } else {
                assert(frames == 0);
            }
        }
        let mut f: usize = 0;
        while f < frames
            invariant
                ch == channels as usize,
                chi == ch as int,
                ch >= 1,
                frames == (old(data).len() as int) / chi,
                frames * chi <= orig.len(),
                orig == old(data)@,
                f <= frames,
                self.wf(),
                self.definition == old(self).definition,
                d == old(self).definition,
                st0 == state_of(*old(self)),
                f == 0 ==> *self == *old(self),
                f > 0 ==> self.last_output == added(orig, data@, f - 1, chi),
                forall|i: int| 0 <= i < orig.len() ==> -BUFFER_HEADROOM <= #[trigger] orig[i] <= BUFFER_HEADROOM,
                frames_written(orig, data@, f as int, chi),
                forall|k: int|
                    0 <= k < f ==> -4 * SAMPLE_ONE * MUSIC_CHANNEL_COUNT <= #[trigger] added(orig, data@, k, chi) <= 4
                        * SAMPLE_ONE * MUSIC_CHANNEL_COUNT,
                tables.wf(),
                scope.wf(),
                scope.capacity() == cap,
                start_scope == old(scope).view(),
                cap == old(scope).capacity(),
                scope.view() == pushed_all(start_scope, cap, frame_amounts(orig, data@, f as int, chi)),
                quiet_sequence(*old(self)) ==> {
                    &&& quiet_sequence(*self)
                    &&& state_of(*self) == states_after(d, st0, *tables, f as nat)
                    &&& forall|k: int|
                        0 <= k < f ==> #[trigger] added(orig, data@, k, chi) == state_sample(
                            d,
                            states_after(d, st0, *tables, k as nat),
                            *tables,
                        )
                },
            decreases frames - f,
        {
            let s = self.next(tables);
            proof {
                assert((f + 1) * ch <= frames * ch) by (nonlinear_arith)
                    requires
                        f + 1 <= frames,
                ;
                assert(f * ch + ch == (f + 1) * ch) by (nonlinear_arith);
            }
            let ghost before = data@;
            proof {
                assert forall|i: int| f * chi <= i < f * chi + chi implies -BUFFER_HEADROOM <= #[trigger] before[i]
                    <= BUFFER_HEADROOM by {
                    assert(before[i] == orig[i]);
                }
            }
            add_frame(data, f * ch, ch, s, scope);
            proof {
                lemma_frame_written(orig, before, data@, f as int, chi, s);
                let amounts = frame_amounts(orig, data@, (f + 1) as int, chi);
                assert(amounts.drop_last() =~= frame_amounts(orig, before, f as int, chi));
                assert(amounts.last() == s);
            }
            f = f + 1;
        }
        proof {
            assert(frame_amounts(orig, data@, f as int, chi) =~= Seq::new(
                ((old(data).len() as int) / (channels as int)) as nat,
                |k: int| added(old(data)@, data@, k, channels as int) as i32,
            ));
        }
    }

    /// Sums one sample of every channel's voice.
    #[verifier::rlimit(40)]
    fn mix_channels(&mut self, tables: &Tables) -> (r: i32)
        requires
            old(self).wf(),
            tables.wf(),
        ensures
            final(self).wf(),
            final(self).definition == old(self).definition,
            final(self).clock == old(self).clock,
            final(self).pattern_index == old(self).pattern_index,
            final(self).current_patch@ == old(self).current_patch@,
            -4 * SAMPLE_ONE * MUSIC_CHANNEL_COUNT <= r <= 4 * SAMPLE_ONE * MUSIC_CHANNEL_COUNT,
            forall|c: int|
                0 <= c < MUSIC_CHANNEL_COUNT ==> matches_but_feedback(
                    #[trigger] final(self).output@[c],
                    channel_next(old(self).output@[c], *tables),
                ),
            exists|ns: Seq<Seq<i32>>|
                channel_noises_ok(ns) && final(self).output@ == Seq::new(
                    MUSIC_CHANNEL_COUNT as nat,
                    |c: int| channel_next_with(old(self).output@[c], *tables, ns[c]),
                ) && r == channels_sum_with(old(self).output@, *tables, ns, MUSIC_CHANNEL_COUNT as int),
            quiet_sequence(*old(self)) ==> {
                &&& quiet_sequence(*final(self))
                &&& r == channels_sum(old(self).output@, *tables, MUSIC_CHANNEL_COUNT as int)
                &&& forall|c: int|
                    0 <= c < MUSIC_CHANNEL_COUNT ==> (#[trigger] final(self).output@[c]) == channel_next(
                        old(self).output@[c],
                        *tables,
                    )
            },
    {
        let ghost mut ns: Seq<Seq<i32>> = Seq::empty();
        let mut acc: i32 = 0;
        let mut c: usize = 0;
        while c < MUSIC_CHANNEL_COUNT
            invariant
                c <= MUSIC_CHANNEL_COUNT,
                ns.len() == c,
                forall|k: int| 0 <= k < c ==> noise_ok(#[trigger] ns[k]),
                forall|k: int|
                    0 <= k < c ==> #[trigger] self.output@[k] == channel_next_with(old(self).output@[k], *tables, ns[k]),
                acc == channels_sum_with(old(self).output@, *tables, ns, c as int),
                self.output.len() == MUSIC_CHANNEL_COUNT,
                tables.wf(),
                self.wf(),
                self.definition == old(self).definition,
                self.clock == old(self).clock,
                self.pattern_index == old(self).pattern_index,
                self.current_patch@ == old(self).current_patch@,
                -131072 * (c as int) <= acc <= 131072 * (c as int),
                forall|k: int| c <= k < MUSIC_CHANNEL_COUNT ==> #[trigger] self.output@[k] == old(self).output@[k],
                forall|k: int|
                    0 <= k < c ==> matches_but_feedback(
                        #[trigger] self.output@[k],
                        channel_next(old(self).output@[k], *tables),
                    ),
                quiet_sequence(*old(self)) ==> {
                    &&& quiet_sequence(*self)
                    &&& acc == channels_sum(old(self).output@, *tables, c as int)
                    &&& forall|k: int|
                        0 <= k < c ==> (#[trigger] self.output@[k]) == channel_next(old(self).output@[k], *tables)
                },
            decreases MUSIC_CHANNEL_COUNT - c,
        {
            let slot = self.output[c];
            let (next_slot, s) = step_channel(slot, tables);
            proof {
                assert(131072 * (c as int) + 131072 == 131072 * (c + 1));
                assert(slot == old(self).output@[c as int]);
                let n = choose|n: Seq<i32>|
                    noise_ok(n) && next_slot == channel_next_with(slot, *tables, n) && s == channel_sample_with(
                        slot,
                        *tables,
                        n,
                    );
                lemma_channels_sum_with_prefix(old(self).output@, *tables, ns, n, c as int);
                let old_ns = ns;
                ns = ns.push(n);
                assert(ns[c as int] == n);
                assert forall|k: int| 0 <= k < c implies ns[k] == old_ns[k] by {}
                if quiet_sequence(*old(self)) {
                    assert(slot is Some ==> noiseless(slot->0));
                }
            }
            acc = acc + s;
            self.output.set(c, next_slot);
            proof {
                if quiet_sequence(*old(self)) {
                    assert(acc == channels_sum(old(self).output@, *tables, c + 1));
                    assert forall|k: int|
                        0 <= k < self.output.len() && (#[trigger] self.output@[k]) is Some implies noiseless(
                        self.output@[k]->0,
                    ) by {
                        if k != c {
                            assert(self.output@[k] == old(self).output@[k] || k < c);
                        }
                    }
                }
            }
            proof {
                assert(acc == channels_sum_with(old(self).output@, *tables, ns, c + 1));
                assert forall|k: int| 0 <= k < c + 1 implies #[trigger] self.output@[k] == channel_next_with(
                    old(self).output@[k],
                    *tables,
                    ns[k],
                ) by {
                    if k < c {
                        assert(self.output@[k] == old(self).output@[k] || true);
                    }
                }
            }
            c = c + 1;
        }
        proof {
            assert(self.output@ =~= Seq::new(
                MUSIC_CHANNEL_COUNT as nat,
                |k: int| channel_next_with(old(self).output@[k], *tables, ns[k]),
            ));
            assert(channel_noises_ok(ns));
        }
        acc
    }
}

/// One sample of a channel: its voice's next state and sample, or nothing.
#[verifier::rlimit(40)]
fn step_channel(slot: Option<PatchInstance>, tables: &Tables) -> (r: (Option<PatchInstance>, i32))
    requires
        tables.wf(),
        slot is Some ==> slot->0.wf(),
    ensures
        r.0 is Some <==> slot is Some,
        r.0 is Some ==> r.0->0.wf() && r.0->0.definition == slot->0.definition,
        -4 * SAMPLE_ONE <= r.1 <= 4 * SAMPLE_ONE,
        matches_but_feedback(r.0, channel_next(slot, *tables)),
        exists|n: Seq<i32>|
            noise_ok(n) && r.0 == channel_next_with(slot, *tables, n) && r.1 == channel_sample_with(slot, *tables, n),
        (slot is Some ==> noiseless(slot->0)) ==> {
            &&& r.0 == channel_next(slot, *tables)
            &&& r.1 == channel_sample(slot, *tables)
            &&& (r.0 is Some ==> noiseless(r.0->0))
        },
{
    match slot {
        Some(v) => {
            let mut v = v;
            let ghost v0 = v;
            let s = v.next_sample(tables);
            proof {
                let m = choose|n: Seq<i32>|
                    noise_ok(n) && v == voice_next(v0, *tables, n) && s == voice_sample(v0, *tables, n);
                assert(v == (PatchInstance { prev_feedback1: v.prev_feedback1, ..voice_next(v0, *tables, quiet_noise()) }));
                reveal(channel_next_with);
                reveal(channel_sample_with);
                assert(Some(v) == channel_next_with(slot, *tables, m) && s == channel_sample_with(slot, *tables, m));
                if noiseless(v0) {
                    let n = choose|n: Seq<i32>|
                        noise_ok(n) && v == voice_next(v0, *tables, n) && s == voice_sample(v0, *tables, n);
                    lemma_noise_irrelevant(v0, *tables, n);
                }
            }
            (Some(v), s)
        },
        None => {
            proof {
                reveal(channel_next_with);
                reveal(channel_sample_with);
                let z = quiet_noise();
                assert(noise_ok(z));
                assert(None::<PatchInstance> == channel_next_with(slot, *tables, z) && 0 == channel_sample_with(slot, *tables, z));
            }
            (None, 0)
        },
    }
}

/// Applies a key event to a voice.
fn apply_key_to(v: &mut PatchInstance, key: KeyState)
    requires
        old(v).wf(),
        match key {
            KeyState::Slide(n) => n < NOTE_COUNT,
            KeyState::Pressed(n) => n < NOTE_COUNT,
            _ => true,
        },
    ensures
        final(v).wf(),
        *final(v) == apply_key(*old(v), key),
        final(v).definition == old(v).definition,
        noiseless(*old(v)) ==> noiseless(*final(v)),
{
    reveal(apply_key);
    match key {
        KeyState::Released => v.set_active(false),
        KeyState::Held => {},
        KeyState::Slide(n) => {
            let f = index_to_frequency(n);
            if let Some(f) = f {
                v.set_frequency(f);
            }
        },
        KeyState::Pressed(n) => {
            v.set_active(false);
            let f = index_to_frequency(n);
            if let Some(f) = f {
                v.set_frequency(f);
            }
            v.set_active(true);
        },
    }
}

/// A step pressing note `n` leaves the channel's voice active at that note's
/// frequency; producing samples keeps the key down and the frequency; and a
/// following held step that names no patch changes nothing, so the envelopes
/// are not restarted.
pub proof fn lemma_press_then_hold(
    v: PatchInstance,
    current: Option<usize>,
    n: usize,
    patches: Seq<PatchDefinition>,
    t: Tables,
    noise: Seq<i32>,
    w: PatchInstance,
)
    ensures
        apply_entry(Some(v), current, press(n), patches).0 is Some,
        apply_entry(Some(v), current, press(n), patches).0->0.active,
        apply_entry(Some(v), current, press(n), patches).0->0.base_frequency == note_frequency(n as int) as u32,
        voice_next(w, t, noise).active == w.active,
        voice_next(w, t, noise).base_frequency == w.base_frequency,
        apply_entry(Some(w), current, hold(), patches) == (Some(w), current),
{
    reveal(apply_key);
}

} // verus!
