//! Filling an interleaved audio buffer from a set of voices, and the ring of
//! recent output samples that an oscilloscope reads.
use vstd::prelude::*;
use crate::SAMPLE_ONE;
use crate::operator::operator_sample;
use crate::patch::{PatchInstance, noise_ok, noiseless, raw_samples, voice_next, voice_sample};
use crate::tables::Tables;
use crate::waveform::{Waveform, wave_value};

verus! {

/// Largest number of voices the mixer sums.
pub const MAX_VOICES: usize = 1024;

/// A fixed-capacity ring of the most recent samples; the oldest sample is
/// dropped when a new one arrives and the ring is full.
pub struct ScopeRing {
    pub data: Vec<i32>,
    /// Position of the oldest sample.
    pub start: usize,
    /// Number of samples held.
    pub len: usize,
}

impl ScopeRing {
    pub open spec fn wf(&self) -> bool {
        &&& self.data.len() > 0
        &&& self.start < self.data.len()
        &&& self.len <= self.data.len()
    }

    pub open spec fn capacity(&self) -> nat {
        self.data.len() as nat
    }

    /// The position in `data` of the `k`-th oldest sample.
    pub open spec fn slot(&self, k: int) -> int {
        if self.start + k < self.data.len() {
            self.start + k
        } else {
            self.start + k - self.data.len()
        }
    }

    /// The samples held, oldest first.
    pub open spec fn view(&self) -> Seq<i32> {
        Seq::new(self.len as nat, |k: int| self.data@[self.slot(k)])
    }

    /// A full ring of `capacity` zeros.
    pub fn new(capacity: usize) -> (r: Self)
        requires
            capacity > 0,
        ensures
            r.wf(),
            r.capacity() == capacity,
            r.view() == Seq::new(capacity as nat, |k: int| 0i32),
    {
        let mut data: Vec<i32> = Vec::new();
        let mut i: usize = 0;
        while i < capacity
            invariant
                i <= capacity,
                data@ == Seq::new(i as nat, |k: int| 0i32),
            decreases capacity - i,
        {
            data.push(0);
            i = i + 1;
        }
        let r = ScopeRing { data, start: 0, len: capacity };
        assert(r.view() =~= Seq::new(capacity as nat, |k: int| 0i32));
        r
    }

    /// Appends `x`, dropping the oldest sample when full.
    pub fn push(&mut self, x: i32)
        requires
            old(self).wf(),
        ensures
            final(self).wf(),
            final(self).capacity() == old(self).capacity(),
            final(self).view() == pushed(old(self).view(), old(self).capacity(), x),
    {
        let cap = self.data.len();
        let ghost before = self.view();
        if self.len < cap {
            let pos: usize = if self.len < cap - self.start {
                self.start + self.len
            } else {
                self.len - (cap - self.start)
            };
            self.data.set(pos, x);
            self.len = self.len + 1;
            assert(self.view() =~= before.push(x));
        } else {
            let pos = self.start;
            self.data.set(pos, x);
            self.start = if self.start < cap - 1 {
                self.start + 1
            } else {
                0
            };
            assert(self.view() =~= before.drop_first().push(x));
        }
    }

    /// The samples held, oldest first.
    pub fn to_vec(&self) -> (r: Vec<i32>)
        requires
            self.wf(),
        ensures
            r@ == self.view(),
    {
        let mut r: Vec<i32> = Vec::new();
        let mut k: usize = 0;
        while k < self.len
            invariant
                self.wf(),
                k <= self.len,
                r@ == self.view().subrange(0, k as int),
            decreases self.len - k,
        {
            let pos: usize = if k < self.data.len() - self.start {
                self.start + k
            } else {
                k - (self.data.len() - self.start)
            };
            r.push(self.data[pos]);
            k = k + 1;
            assert(r@ =~= self.view().subrange(0, k as int));
        }
        assert(r@ =~= self.view());
        r
    }
}

/// `view` with `x` appended, its oldest sample dropped if it held `capacity`.
pub open spec fn pushed(view: Seq<i32>, capacity: nat, x: i32) -> Seq<i32> {
    if view.len() < capacity {
        view.push(x)
    } else {
        view.drop_first().push(x)
    }
}

/// `view` after pushing each of `xs` in turn.
pub open spec fn pushed_all(view: Seq<i32>, capacity: nat, xs: Seq<i32>) -> Seq<i32>
    decreases xs.len(),
{
    if xs.len() == 0 {
        view
    } else {
        pushed(pushed_all(view, capacity, xs.drop_last()), capacity, xs.last())
    }
}

/// The noise values of a voice with no noise operator.
pub open spec fn quiet_noise() -> Seq<i32> {
    seq![0i32, 0i32, 0i32, 0i32]
}

/// A voice after one frame: an active voice produces a sample, an inactive
/// one is left as it is.
#[verifier::opaque]
pub open spec fn advance(v: PatchInstance, t: Tables) -> PatchInstance {
    if v.active {
        voice_next(v, t, quiet_noise())
    } else {
        v
    }
}

/// What a voice adds to a frame: its sample if active, else nothing.
#[verifier::opaque]
pub open spec fn contribution(v: PatchInstance, t: Tables) -> int {
    if v.active {
        voice_sample(v, t, quiet_noise())
    } else {
        0
    }
}

/// The sum of the contributions of the first `k` voices.
pub open spec fn sum_prefix(vs: Seq<PatchInstance>, t: Tables, k: int) -> int
    decreases k,
{
    if k <= 0 {
        0
    } else {
        sum_prefix(vs, t, k - 1) + contribution(vs[k - 1], t)
    }
}

/// The sample of one frame: the sum over the active voices.
pub open spec fn frame_sum(vs: Seq<PatchInstance>, t: Tables) -> int {
    sum_prefix(vs, t, vs.len() as int)
}

/// Every voice after one frame.
pub open spec fn advance_all(vs: Seq<PatchInstance>, t: Tables) -> Seq<PatchInstance> {
    Seq::new(vs.len(), |i: int| advance(vs[i], t))
}

/// The voices after `k` frames.
pub open spec fn voices_after(vs: Seq<PatchInstance>, t: Tables, k: nat) -> Seq<PatchInstance>
    decreases k,
{
    if k == 0 {
        vs
    } else {
        advance_all(voices_after(vs, t, (k - 1) as nat), t)
    }
}

/// The sample of frame `k` when mixing `vs` from their current state.
pub open spec fn frame_value(vs: Seq<PatchInstance>, t: Tables, k: nat) -> int {
    frame_sum(voices_after(vs, t, k), t)
}

/// A voice after one frame, with `n` as its operators' noise values.
#[verifier::opaque]
pub open spec fn advance_with(v: PatchInstance, t: Tables, n: Seq<i32>) -> PatchInstance {
    if v.active {
        voice_next(v, t, n)
    } else {
        v
    }
}

/// What a voice adds to a frame, with `n` as its operators' noise values.
#[verifier::opaque]
pub open spec fn contribution_with(v: PatchInstance, t: Tables, n: Seq<i32>) -> int {
    if v.active {
        voice_sample(v, t, n)
    } else {
        0
    }
}

/// The sum of the first `k` voices' contributions, voice `i` drawing `ns[i]`.
pub open spec fn sum_with(vs: Seq<PatchInstance>, t: Tables, ns: Seq<Seq<i32>>, k: int) -> int
    decreases k,
{
    if k <= 0 {
        0
    } else {
        sum_with(vs, t, ns, k - 1) + contribution_with(vs[k - 1], t, ns[k - 1])
    }
}

/// Every voice after one frame, voice `i` drawing `ns[i]`.
pub open spec fn advance_all_with(vs: Seq<PatchInstance>, t: Tables, ns: Seq<Seq<i32>>) -> Seq<PatchInstance> {
    Seq::new(vs.len(), |i: int| advance_with(vs[i], t, ns[i]))
}

/// One valid noise array per voice.
pub open spec fn noises_ok(ns: Seq<Seq<i32>>, count: nat) -> bool {
    ns.len() == count && forall|i: int| 0 <= i < count ==> noise_ok(#[trigger] ns[i])
}

/// The voices after `k` frames, frame `j` drawing `nss[j]`.
pub open spec fn voices_after_with(vs: Seq<PatchInstance>, t: Tables, nss: Seq<Seq<Seq<i32>>>, k: nat) -> Seq<
    PatchInstance,
>
    decreases k,
{
    if k == 0 {
        vs
    } else {
        advance_all_with(voices_after_with(vs, t, nss, (k - 1) as nat), t, nss[k - 1])
    }
}

/// The sample of frame `k`, frame `j` drawing `nss[j]`.
pub open spec fn frame_value_with(vs: Seq<PatchInstance>, t: Tables, nss: Seq<Seq<Seq<i32>>>, k: nat) -> int {
    sum_with(voices_after_with(vs, t, nss, k), t, nss[k as int], vs.len() as int)
}

proof fn lemma_sum_with_prefix(vs: Seq<PatchInstance>, t: Tables, ns: Seq<Seq<i32>>, x: Seq<i32>, k: int)
    requires
        0 <= k <= ns.len(),
    ensures
        sum_with(vs, t, ns.push(x), k) == sum_with(vs, t, ns, k),
    decreases k,
{
    if k > 0 {
        lemma_sum_with_prefix(vs, t, ns, x, k - 1);
        assert(ns.push(x)[k - 1] == ns[k - 1]);
    }
}

proof fn lemma_after_with_prefix(
    vs: Seq<PatchInstance>,
    t: Tables,
    nss: Seq<Seq<Seq<i32>>>,
    x: Seq<Seq<i32>>,
    k: nat,
)
    requires
        k <= nss.len(),
    ensures
        voices_after_with(vs, t, nss.push(x), k) == voices_after_with(vs, t, nss, k),
        voices_after_with(vs, t, nss, k).len() == vs.len(),
    decreases k,
{
    if k > 0 {
        lemma_after_with_prefix(vs, t, nss, x, (k - 1) as nat);
        assert(nss.push(x)[k - 1] == nss[k - 1]);
    }
}

/// Every voice is well formed.
pub open spec fn voices_ok(vs: Seq<PatchInstance>) -> bool {
    forall|i: int| 0 <= i < vs.len() ==> (#[trigger] vs[i]).wf()
}

/// No voice has an operator with the `Noise` waveform.
pub open spec fn all_noiseless(vs: Seq<PatchInstance>) -> bool {
    forall|i: int| 0 <= i < vs.len() ==> noiseless(#[trigger] vs[i])
}

/// An operator that is not `Noise` ignores the noise value.
proof fn lemma_operator_ignores_noise(
    op: crate::operator::OperatorInstance,
    t: Tables,
    base: u32,
    sr: u32,
    m: u32,
    n: i32,
)
    requires
        op.definition.waveform != Waveform::Noise,
    ensures
        operator_sample(op, t, base, sr, m, n) == operator_sample(op, t, base, sr, m, 0),
{
    reveal(operator_sample);
    reveal(wave_value);
}

/// A voice without noise operators produces the same sample and the same
/// next state whatever noise it is handed, and stays without noise.
#[verifier::rlimit(40)]
pub proof fn lemma_noise_irrelevant(v: PatchInstance, t: Tables, n: Seq<i32>)
    requires
        noiseless(v),
        noise_ok(n),
    ensures
        voice_sample(v, t, n) == voice_sample(v, t, quiet_noise()),
        voice_next(v, t, n) == voice_next(v, t, quiet_noise()),
        noiseless(voice_next(v, t, n)),
{
    let z = quiet_noise();
    let ops = v.operators@;
    assert(ops[0].definition.waveform != Waveform::Noise);
    assert(ops[1].definition.waveform != Waveform::Noise);
    assert(ops[2].definition.waveform != Waveform::Noise);
    assert(ops[3].definition.waveform != Waveform::Noise);
    let base = v.base_frequency;
    let sr = v.definition.sample_rate;
    let rn = raw_samples(v, t, n);
    let rz = raw_samples(v, t, z);
    lemma_operator_ignores_noise(ops[0], t, base, sr, crate::patch::feedback_modulation(v), n[0]);
    assert(rn[0] == rz[0]);
    let a = v.definition.algorithm;
    let m1 = crate::patch::source_modulation(crate::algorithm::modulator_of(a, 1), seq![rn[0], 0, 0, 0]);
    lemma_operator_ignores_noise(ops[1], t, base, sr, m1, n[1]);
    assert(seq![rn[0], 0, 0, 0] == seq![rz[0], 0int, 0int, 0int]);
    assert(rn[1] == rz[1]);
    let m2 = crate::patch::source_modulation(
        crate::algorithm::modulator_of(a, 2),
        seq![rn[0], rn[1] * crate::AMPLIFICATION, 0, 0],
    );
    lemma_operator_ignores_noise(ops[2], t, base, sr, m2, n[2]);
    assert(rn[2] == rz[2]);
    let m3 = crate::patch::source_modulation(
        crate::algorithm::modulator_of(a, 3),
        seq![rn[0], rn[1] * crate::AMPLIFICATION, rn[2] * crate::AMPLIFICATION, 0],
    );
    lemma_operator_ignores_noise(ops[3], t, base, sr, m3, n[3]);
    assert(rn[3] == rz[3]);
    let w = voice_next(v, t, n);
    assert forall|i: int| 0 <= i < 4 implies (#[trigger] w.operators@[i]).definition.waveform
        != Waveform::Noise by {
        assert(w.operators@[i].definition == v.operators@[i].definition);
    }
}

/// Largest magnitude of a mixed frame: `MAX_VOICES` voices of at most four
/// full-scale operators each.
pub const FRAME_PEAK: i32 = 134217728;

/// Largest magnitude a buffer value may have before a frame is added to it,
/// so that the sum stays within `i32`.
pub const BUFFER_HEADROOM: i32 = 2013265919;

/// What frame `f` added to the buffer at its first channel.
pub open spec fn added(before: Seq<i32>, after: Seq<i32>, f: int, channels: int) -> int {
    after[f * channels] - before[f * channels]
}

/// The first `f` frames of `data` each hold one added amount on every
/// channel, and from frame `f` on `data` is still `orig`.
pub open spec fn frames_written(orig: Seq<i32>, data: Seq<i32>, f: int, channels: int) -> bool {
    &&& data.len() == orig.len()
    &&& forall|k: int, c: int|
        0 <= k < f && 0 <= c < channels ==> #[trigger] data[k * channels + c] - orig[k * channels + c] == added(
            orig,
            data,
            k,
            channels,
        )
    &&& forall|i: int| f * channels <= i < orig.len() ==> #[trigger] data[i] == orig[i]
}

/// The amounts added to the first `f` frames.
pub open spec fn frame_amounts(orig: Seq<i32>, data: Seq<i32>, f: int, channels: int) -> Seq<i32> {
    Seq::new(f as nat, |k: int| added(orig, data, k, channels) as i32)
}

/// Adds `s` to the `channels` samples of the frame at `base` and pushes it
/// to `scope`.
pub fn add_frame(data: &mut Vec<i32>, base: usize, channels: usize, s: i32, scope: &mut ScopeRing)
    requires
        base + channels <= old(data).len(),
        -FRAME_PEAK <= s <= FRAME_PEAK,
        forall|i: int| base <= i < base + channels ==> -BUFFER_HEADROOM <= #[trigger] old(data)@[i] <= BUFFER_HEADROOM,
        old(scope).wf(),
    ensures
        final(data).len() == old(data).len(),
        forall|i: int| base <= i < base + channels ==> #[trigger] final(data)@[i] == old(data)@[i] + s,
        forall|i: int|
            0 <= i < old(data).len() && !(base <= i < base + channels) ==> #[trigger] final(data)@[i] == old(data)@[i],
        final(scope).wf(),
        final(scope).capacity() == old(scope).capacity(),
        final(scope).view() == pushed(old(scope).view(), old(scope).capacity(), s),
{
    let mut c: usize = 0;
    while c < channels
        invariant
            base + channels <= data.len(),
            data.len() == old(data).len(),
            c <= channels,
            -FRAME_PEAK <= s <= FRAME_PEAK,
            forall|i: int| base <= i < base + channels ==> -BUFFER_HEADROOM <= #[trigger] old(data)@[i] <= BUFFER_HEADROOM,
            forall|i: int| base <= i < base + c ==> #[trigger] data@[i] == old(data)@[i] + s,
            forall|i: int| 0 <= i < data.len() && !(base <= i < base + c) ==> #[trigger] data@[i] == old(data)@[i],
        decreases channels - c,
    {
        let x = data[base + c];
        assert(x == old(data)@[(base + c) as int]);
        data.set(base + c, x + s);
        c = c + 1;
    }
    scope.push(s);
}

/// Writing frame `f` of `before` by adding `s` to its channels extends the
/// written frames by one, whose amount is `s`, and leaves the earlier
/// amounts as they were.
pub proof fn lemma_frame_written(orig: Seq<i32>, before: Seq<i32>, after: Seq<i32>, f: int, ch: int, s: i32)
    requires
        ch >= 1,
        0 <= f,
        (f + 1) * ch <= orig.len(),
        after.len() == orig.len(),
        frames_written(orig, before, f, ch),
        forall|i: int| f * ch <= i < f * ch + ch ==> #[trigger] after[i] == before[i] + s,
        forall|i: int| 0 <= i < orig.len() && !(f * ch <= i < f * ch + ch) ==> #[trigger] after[i] == before[i],
    ensures
        frames_written(orig, after, f + 1, ch),
        added(orig, after, f, ch) == s,
        forall|k: int| 0 <= k < f ==> #[trigger] added(orig, after, k, ch) == added(orig, before, k, ch),
        frame_amounts(orig, after, f + 1, ch) == frame_amounts(orig, before, f, ch).push(s),
{
    assert((f + 1) * ch == f * ch + ch) by (nonlinear_arith);
    assert(f * ch >= 0) by (nonlinear_arith)
        requires
            f >= 0,
            ch >= 1,
    ;
    assert(after[f * ch] == before[f * ch] + s);
    assert(before[f * ch] == orig[f * ch]);
    assert forall|k: int| 0 <= k < f implies #[trigger] added(orig, after, k, ch) == added(orig, before, k, ch) by {
        lemma_frame_layout(k, 0, f, ch);
        assert(after[k * ch] == before[k * ch]);
    }
    assert forall|k: int, c: int|
        0 <= k < f + 1 && 0 <= c < ch implies #[trigger] after[k * ch + c] - orig[k * ch + c] == added(
        orig,
        after,
        k,
        ch,
    ) by {
        if k < f {
            lemma_frame_layout(k, c, f, ch);
            assert(after[k * ch + c] == before[k * ch + c]);
            assert(after[k * ch] == before[k * ch]);
            assert(before[k * ch + c] - orig[k * ch + c] == added(orig, before, k, ch));
        } else {
            assert(k == f);
            assert(after[k * ch + c] == before[k * ch + c] + s);
            assert(before[k * ch + c] == orig[k * ch + c]);
        }
    }
    assert forall|i: int| (f + 1) * ch <= i < orig.len() implies #[trigger] after[i] == orig[i] by {
        assert(after[i] == before[i]);
        assert(before[i] == orig[i]);
    }
    assert(frame_amounts(orig, after, f + 1, ch) =~= frame_amounts(orig, before, f, ch).push(s));
}

/// Adds to `data`, `channels` samples per frame, the mix of the active
/// voices: each frame's sample is added to every channel of the frame and
/// pushed to `scope`. Every voice advances by one sample per frame while
/// active. Without noise operators, frame `f` adds
/// `frame_value(voices, tables, f)` and the voices end in
/// `voices_after(voices, tables, frames)`.
#[verifier::rlimit(40)]
pub fn write_to_buffer(
    data: &mut Vec<i32>,
    channels: u16,
    voices: &mut Vec<PatchInstance>,
    tables: &Tables,
    scope: &mut ScopeRing,
)
    requires
        channels >= 1,
        (old(data).len() as int) % (channels as int) == 0,
        forall|i: int| 0 <= i < old(data).len() ==> -BUFFER_HEADROOM <= #[trigger] old(data)@[i] <= BUFFER_HEADROOM,
        old(voices).len() <= MAX_VOICES,
        voices_ok(old(voices)@),
        tables.wf(),
        old(scope).wf(),
    ensures
        final(data).len() == old(data).len(),
        final(voices).len() == old(voices).len(),
        voices_ok(final(voices)@),
        forall|i: int|
            0 <= i < final(voices).len() ==> (#[trigger] final(voices)@[i]).active == old(voices)@[i].active
                && final(voices)@[i].definition == old(voices)@[i].definition && final(voices)@[i].base_frequency
                == old(voices)@[i].base_frequency,
        final(scope).wf(),
        final(scope).capacity() == old(scope).capacity(),
        final(scope).view() == pushed_all(
            old(scope).view(),
            old(scope).capacity(),
            Seq::new(
                ((old(data).len() as int) / (channels as int)) as nat,
                |f: int| added(old(data)@, final(data)@, f, channels as int) as i32,
            ),
        ),
        forall|f: int, c: int|
            0 <= f < (old(data).len() as int) / (channels as int) && 0 <= c < channels ==> #[trigger] final(data)@[f
                * (channels as int) + c] - old(data)@[f * (channels as int) + c] == added(
                old(data)@,
                final(data)@,
                f,
                channels as int,
            ),
        forall|f: int|
            0 <= f < (old(data).len() as int) / (channels as int) ==> -FRAME_PEAK <= #[trigger] added(
                old(data)@,
                final(data)@,
                f,
                channels as int,
            ) <= FRAME_PEAK,
        exists|nss: Seq<Seq<Seq<i32>>>|
            {
                &&& nss.len() == (old(data).len() as int) / (channels as int)
                &&& forall|j: int| 0 <= j < nss.len() ==> noises_ok(#[trigger] nss[j], old(voices).len() as nat)
                &&& final(voices)@ == voices_after_with(old(voices)@, *tables, nss, nss.len())
                &&& forall|f: int|
                    0 <= f < nss.len() ==> #[trigger] added(old(data)@, final(data)@, f, channels as int)
                        == frame_value_with(old(voices)@, *tables, nss, f as nat)
            },
        all_noiseless(old(voices)@) ==> {
            &&& final(voices)@ == voices_after(
                old(voices)@,
                *tables,
                ((old(data).len() as int) / (channels as int)) as nat,
            )
            &&& forall|f: int|
                0 <= f < (old(data).len() as int) / (channels as int) ==> #[trigger] added(
                    old(data)@,
                    final(data)@,
                    f,
                    channels as int,
                ) == frame_value(old(voices)@, *tables, f as nat)
        },
{
    let ch: usize = channels as usize;
    let frames: usize = data.len() / ch;
    let ghost orig = data@;
    let ghost start_voices = voices@;
    let ghost start_scope = scope.view();
    let ghost cap = scope.capacity();
    let ghost chi = ch as int;
    proof {
        assert(frames * chi <= orig.len()) by (nonlinear_arith)
            requires
                frames == (orig.len() as int) / chi,
                chi >= 1,
        ;
    }
    let ghost mut nss: Seq<Seq<Seq<i32>>> = Seq::empty();
    let mut f: usize = 0;
    while f < frames
        invariant
            ch == channels as usize,
            chi == ch as int,
            ch >= 1,
            frames == (old(data).len() as int) / chi,
            frames * chi <= orig.len(),
            orig == old(data)@,
            f <= frames,
            forall|i: int| 0 <= i < orig.len() ==> -BUFFER_HEADROOM <= #[trigger] orig[i] <= BUFFER_HEADROOM,
            frames_written(orig, data@, f as int, chi),
            forall|k: int| 0 <= k < f ==> -FRAME_PEAK <= #[trigger] added(orig, data@, k, chi) <= FRAME_PEAK,
            nss.len() == f,
            forall|j: int| 0 <= j < f ==> noises_ok(#[trigger] nss[j], start_voices.len() as nat),
            voices@ == voices_after_with(start_voices, *tables, nss, f as nat),
            forall|k: int| 0 <= k < f ==> #[trigger] added(orig, data@, k, chi) == frame_value_with(start_voices, *tables, nss, k as nat),
            voices.len() == start_voices.len(),
            voices.len() <= MAX_VOICES,
            voices_ok(voices@),
            forall|i: int|
                0 <= i < voices.len() ==> (#[trigger] voices@[i]).active == start_voices[i].active
                    && voices@[i].definition == start_voices[i].definition && voices@[i].base_frequency
                    == start_voices[i].base_frequency,
            tables.wf(),
            scope.wf(),
            scope.capacity() == cap,
            start_voices == old(voices)@,
            start_scope == old(scope).view(),
            cap == old(scope).capacity(),
            scope.view() == pushed_all(start_scope, cap, frame_amounts(orig, data@, f as int, chi)),
            all_noiseless(start_voices) ==> {
                &&& voices@ == voices_after(start_voices, *tables, f as nat)
                &&& all_noiseless(voices@)
                &&& forall|k: int| 0 <= k < f ==> #[trigger] added(orig, data@, k, chi) == frame_value(start_voices, *tables, k as nat)
            },
        decreases frames - f,
    {
        let ghost frame_start = voices@;
        let s = mix_frame(voices, tables);
        proof {
            assert((f + 1) * ch <= frames * ch) by (nonlinear_arith)
                requires
                    f + 1 <= frames,
            ;
            assert(f * ch + ch == (f + 1) * ch) by (nonlinear_arith);
        }
        let ghost before = data@;
        proof {
            assert forall|i: int| f * chi <= i < f * chi + chi implies -BUFFER_HEADROOM <= #[trigger] before[i]
                <= BUFFER_HEADROOM by {
                assert(before[i] == orig[i]);
            }
        }
        add_frame(data, f * ch, ch, s, scope);
        proof {
            lemma_frame_written(orig, before, data@, f as int, chi, s);
            let amounts = frame_amounts(orig, data@, (f + 1) as int, chi);
            assert(amounts.drop_last() =~= frame_amounts(orig, before, f as int, chi));
            assert(amounts.last() == s);
            let ns = choose|ns: Seq<Seq<i32>>|
                noises_ok(ns, frame_start.len() as nat) && voices@ == advance_all_with(frame_start, *tables, ns)
                    && s == sum_with(frame_start, *tables, ns, frame_start.len() as int);
            let old_nss = nss;
            lemma_after_with_prefix(start_voices, *tables, old_nss, ns, f as nat);
            nss = nss.push(ns);
            assert(nss[f as int] == ns);
            assert(voices_after_with(start_voices, *tables, nss, (f + 1) as nat) == advance_all_with(
                voices_after_with(start_voices, *tables, nss, f as nat),
                *tables,
                ns,
            ));
            assert(frame_value_with(start_voices, *tables, nss, f as nat) == s);
            assert forall|k: int| 0 <= k < f + 1 implies #[trigger] added(orig, data@, k, chi) == frame_value_with(
                start_voices,
                *tables,
                nss,
                k as nat,
            ) by {
                if k < f {
                    lemma_after_with_prefix(start_voices, *tables, old_nss, ns, k as nat);
                    assert(nss[k] == old_nss[k]);
                    assert(added(orig, data@, k, chi) == added(orig, before, k, chi));
                }
            }
            assert forall|j: int| 0 <= j < f + 1 implies noises_ok(#[trigger] nss[j], start_voices.len() as nat) by {
                if j < f {
                    assert(nss[j] == old_nss[j]);
                }
            }
            if all_noiseless(start_voices) {
                assert(frame_start == voices_after(start_voices, *tables, f as nat));
                assert(voices@ == voices_after(start_voices, *tables, (f + 1) as nat));
            }
        }
        f = f + 1;
    }
    proof {
        assert(frame_amounts(orig, data@, f as int, chi) =~= Seq::new(
            ((old(data).len() as int) / (channels as int)) as nat,
            |k: int| added(old(data)@, data@, k, channels as int) as i32,
        ));
        assert(nss.len() == (old(data).len() as int) / (channels as int));
    }
}

/// Advances one voice by a frame and returns what it adds to the frame.
#[verifier::rlimit(40)]
fn step_voice(v: &mut PatchInstance, tables: &Tables) -> (s: i32)
    requires
        old(v).wf(),
        tables.wf(),
    ensures
        final(v).wf(),
        -4 * SAMPLE_ONE <= s <= 4 * SAMPLE_ONE,
        final(v).active == old(v).active,
        final(v).definition == old(v).definition,
        final(v).base_frequency == old(v).base_frequency,
        exists|n: Seq<i32>|
            noise_ok(n) && *final(v) == advance_with(*old(v), *tables, n) && s == contribution_with(
                *old(v),
                *tables,
                n,
            ),
        noiseless(*old(v)) ==> {
            &&& *final(v) == advance(*old(v), *tables)
            &&& s == contribution(*old(v), *tables)
            &&& noiseless(*final(v))
        },
{
    reveal(advance);
    reveal(contribution);
    reveal(advance_with);
    reveal(contribution_with);
    if v.active {
        let ghost before = *v;
        let s = v.next_sample(tables);
        proof {
            let n = choose|n: Seq<i32>|
                noise_ok(n) && *v == voice_next(before, *tables, n) && s == voice_sample(before, *tables, n);
            assert(v.active == before.active && v.definition == before.definition);
            assert(*v == advance_with(before, *tables, n) && s == contribution_with(before, *tables, n));
            if noiseless(before) {
                let n = choose|n: Seq<i32>|
                    noise_ok(n) && *v == voice_next(before, *tables, n) && s == voice_sample(before, *tables, n);
                lemma_noise_irrelevant(before, *tables, n);
            }
        }
        s
    } else {
        proof {
            let z = quiet_noise();
            assert(noise_ok(z));
            assert(*v == advance_with(*old(v), *tables, z) && 0 == contribution_with(*old(v), *tables, z));
        }
        0
    }
}

pub proof fn lemma_frame_layout(k: int, c: int, f: int, ch: int)
    requires
        0 <= k < f,
        0 <= c < ch,
    ensures
        0 <= k * ch,
        k * ch + c < f * ch,
        k * ch < f * ch,
{
    assert(0 <= k * ch) by (nonlinear_arith)
        requires
            0 <= k,
            0 <= c < ch,
    ;
    assert(k * ch + c < f * ch) by (nonlinear_arith)
        requires
            0 <= k < f,
            0 <= c < ch,
    ;
}

/// Produces one frame: every active voice produces a sample, and the sum
/// is returned.
#[verifier::rlimit(40)]
fn mix_frame(voices: &mut Vec<PatchInstance>, tables: &Tables) -> (r: i32)
    requires
        old(voices).len() <= MAX_VOICES,
        voices_ok(old(voices)@),
        tables.wf(),
    ensures
        final(voices).len() == old(voices).len(),
        voices_ok(final(voices)@),
        -FRAME_PEAK <= r <= FRAME_PEAK,
        forall|i: int|
            0 <= i < final(voices).len() ==> (#[trigger] final(voices)@[i]).active == old(voices)@[i].active
                && final(voices)@[i].definition == old(voices)@[i].definition && final(voices)@[i].base_frequency
                == old(voices)@[i].base_frequency,
        exists|ns: Seq<Seq<i32>>|
            noises_ok(ns, old(voices).len() as nat) && final(voices)@ == advance_all_with(old(voices)@, *tables, ns)
                && r == sum_with(old(voices)@, *tables, ns, old(voices).len() as int),
        all_noiseless(old(voices)@) ==> {
            &&& final(voices)@ == advance_all(old(voices)@, *tables)
            &&& r == frame_sum(old(voices)@, *tables)
            &&& all_noiseless(final(voices)@)
        },
{
    let ghost start = voices@;
    let ghost mut ns: Seq<Seq<i32>> = Seq::empty();
    let mut acc: i32 = 0;
    let mut i: usize = 0;
    while i < voices.len()
        invariant
            i <= voices.len(),
            ns.len() == i,
            forall|k: int| 0 <= k < i ==> noise_ok(#[trigger] ns[k]),
            forall|k: int| 0 <= k < i ==> #[trigger] voices@[k] == advance_with(start[k], *tables, ns[k]),
            acc == sum_with(start, *tables, ns, i as int),
            voices.len() == start.len(),
            start.len() <= MAX_VOICES,
            voices_ok(voices@),
            voices_ok(start),
            tables.wf(),
            -131072 * (i as int) <= acc <= 131072 * (i as int),
            forall|k: int| i <= k < voices.len() ==> #[trigger] voices@[k] == start[k],
            forall|k: int|
                0 <= k < i ==> (#[trigger] voices@[k]).active == start[k].active && voices@[k].definition
                    == start[k].definition && voices@[k].base_frequency == start[k].base_frequency,
            all_noiseless(start) ==> {
                &&& acc == sum_prefix(start, *tables, i as int)
                &&& forall|k: int| 0 <= k < i ==> #[trigger] voices@[k] == advance(start[k], *tables)
                &&& forall|k: int| 0 <= k < i ==> noiseless(#[trigger] voices@[k])
            },
        decreases voices.len() - i,
    {
        let mut v = voices[i];
        let ghost v0 = v;
        let s = step_voice(&mut v, tables);
        proof {
            let n = choose|n: Seq<i32>|
                noise_ok(n) && v == advance_with(v0, *tables, n) && s == contribution_with(v0, *tables, n);
            lemma_sum_with_prefix(start, *tables, ns, n, i as int);
            ns = ns.push(n);
            assert(ns[i as int] == n);
            assert(v0 == start[i as int]);
            assert forall|k: int| 0 <= k < i + 1 implies noise_ok(#[trigger] ns[k]) by {
                if k < i {
                    assert(ns[k] == ns.drop_last()[k]);
                }
            }
            assert(v == advance(start[i as int], *tables) || !all_noiseless(start));
            assert(131072 * (i as int) + 131072 == 131072 * (i + 1));
            assert(131072 * (i + 1) <= 131072 * 1024);
        }
        acc = acc + s;
        voices.set(i, v);
        i = i + 1;
    }
    proof {
        assert(131072 * (i as int) <= 134217728);
        assert(voices@ =~= advance_all_with(start, *tables, ns));
        assert(noises_ok(ns, start.len()));
        assert(acc == sum_with(start, *tables, ns, start.len() as int));
        if all_noiseless(start) {
            assert(voices@ =~= advance_all(start, *tables));
            assert forall|k: int| 0 <= k < voices@.len() implies noiseless(#[trigger] voices@[k]) by {}
        }
    }
    acc
}

/// Mixing is additive: for two voices, each frame of the joint mix is the
/// sum of that frame when mixing each voice alone.
pub proof fn lemma_mix_additive(a: PatchInstance, b: PatchInstance, t: Tables, k: nat)
    ensures
        frame_value(seq![a, b], t, k) == frame_value(seq![a], t, k) + frame_value(seq![b], t, k),
{
    lemma_two_voices_after(a, b, t, k);
    let va = voices_after(seq![a], t, k);
    let vb = voices_after(seq![b], t, k);
    let vab = voices_after(seq![a, b], t, k);
    assert(vab == seq![va[0], vb[0]]);
    reveal_with_fuel(sum_prefix, 3);
    assert(sum_prefix(vab, t, 2) == contribution(va[0], t) + contribution(vb[0], t));
    assert(sum_prefix(va, t, 1) == contribution(va[0], t));
    assert(sum_prefix(vb, t, 1) == contribution(vb[0], t));
}

proof fn lemma_two_voices_after(a: PatchInstance, b: PatchInstance, t: Tables, k: nat)
    ensures
        voices_after(seq![a], t, k).len() == 1,
        voices_after(seq![b], t, k).len() == 1,
        voices_after(seq![a, b], t, k) == seq![voices_after(seq![a], t, k)[0], voices_after(seq![b], t, k)[0]],
    decreases k,
{
    if k > 0 {
        lemma_two_voices_after(a, b, t, (k - 1) as nat);
        let pa = voices_after(seq![a], t, (k - 1) as nat);
        let pb = voices_after(seq![b], t, (k - 1) as nat);
        assert(advance_all(seq![pa[0], pb[0]], t) =~= seq![advance(pa[0], t), advance(pb[0], t)]);
        assert(advance_all(pa, t) =~= seq![advance(pa[0], t)]);
        assert(advance_all(pb, t) =~= seq![advance(pb[0], t)]);
    } else {
        assert(seq![a, b] =~= seq![seq![a][0], seq![b][0]]);
    }
}

} // verus!
