//! Lookup tables: one quarter of a sine period, and the two exponential
//! attenuation curves.
//!
//! The table contents are real-valued functions (a sine, a power of ten); they
//! are computed by the host and handed in once. `Tables::new` checks the shape
//! that the engine relies on and refuses anything else.
use vstd::prelude::*;
use crate::{ATTENUATION_MAX, GAIN_ONE, SAMPLE_ONE};

verus! {

/// Entries in a full sine period, indexed by the top 16 bits of a phase.
pub const SINE_PERIOD: u32 = 65536;

/// Entries in a quarter of the sine period.
pub const SINE_QUARTER: u32 = 16384;

/// Entries in the envelope attenuation curve (`ATTENUATION_MAX + 1`).
pub const ENVELOPE_GAIN_LEN: usize = 1025;

/// Entries in the total-level attenuation curve.
pub const LEVEL_GAIN_LEN: usize = 256;

/// Upper bound on the gain at `ATTENUATION_MAX`: one ten-thousandth of unity.
pub const SILENT_GAIN_BOUND: u32 = 1677;

/// Values never decrease along the sequence.
pub open spec fn non_decreasing(s: Seq<i32>) -> bool {
    forall|i: int, j: int| 0 <= i <= j < s.len() ==> s[i] <= s[j]
}

/// Values never increase along the sequence.
pub open spec fn non_increasing(s: Seq<u32>) -> bool {
    forall|i: int, j: int| 0 <= i <= j < s.len() ==> s[i] >= s[j]
}

/// A rising quarter sine: `q[k]` stands for `sin(k·2π / SINE_PERIOD)` in
/// units of `SAMPLE_ONE`, from 0 up to full scale.
pub open spec fn quarter_wave_shape(q: Seq<i32>) -> bool {
    &&& q.len() == SINE_QUARTER + 1
    &&& q[0] == 0
    &&& q[SINE_QUARTER as int] == SAMPLE_ONE
    &&& non_decreasing(q)
}

/// An attenuation curve: unity at index 0, never rising afterwards.
pub open spec fn gain_curve_shape(g: Seq<u32>, len: nat) -> bool {
    &&& g.len() == len
    &&& g[0] == GAIN_ONE
    &&& non_increasing(g)
}

/// The sine table entry at index `i` of a full period, unfolded from the
/// quarter by the symmetries of the sine.
pub open spec fn sine_entry(q: Seq<i32>, i: int) -> int {
    if i < SINE_QUARTER {
        q[i] as int
    } else if i < 2 * SINE_QUARTER {
        q[2 * SINE_QUARTER - i] as int
    } else if i < 3 * SINE_QUARTER {
        -q[i - 2 * SINE_QUARTER]
    } else {
        -q[4 * SINE_QUARTER - i]
    }
}

/// The sine of a 32-bit phase: the entry at its top 16 bits.
pub open spec fn sine_of_phase(q: Seq<i32>, phase: u32) -> int {
    sine_entry(q, (phase / 65536) as int)
}

/// The lookup tables of the engine.
pub struct Tables {
    /// `sin` over the first quarter period, `SINE_QUARTER + 1` entries.
    pub quarter_sine: Vec<i32>,
    /// Gain for each envelope attenuation `0..=ATTENUATION_MAX`.
    pub envelope_gain: Vec<u32>,
    /// Gain for each total-level attenuation `0..=255`.
    pub level_gain: Vec<u32>,
}

impl Tables {
    pub open spec fn wf(&self) -> bool {
        &&& quarter_wave_shape(self.quarter_sine@)
        &&& gain_curve_shape(self.envelope_gain@, ENVELOPE_GAIN_LEN as nat)
        &&& gain_curve_shape(self.level_gain@, LEVEL_GAIN_LEN as nat)
        &&& self.envelope_gain@[ATTENUATION_MAX as int] <= SILENT_GAIN_BOUND
    }

    /// Builds the tables from their contents, or returns `None` when one of
    /// them does not have the required shape.
    pub fn new(quarter_sine: Vec<i32>, envelope_gain: Vec<u32>, level_gain: Vec<u32>) -> (r:
        Option<Tables>)
        ensures
            r is Some <==> {
                &&& quarter_wave_shape(quarter_sine@)
                &&& gain_curve_shape(envelope_gain@, ENVELOPE_GAIN_LEN as nat)
                &&& gain_curve_shape(level_gain@, LEVEL_GAIN_LEN as nat)
                &&& envelope_gain@[ATTENUATION_MAX as int] <= SILENT_GAIN_BOUND
            },
            r is Some ==> {
                &&& r->0.wf()
                &&& r->0.quarter_sine@ == quarter_sine@
                &&& r->0.envelope_gain@ == envelope_gain@
                &&& r->0.level_gain@ == level_gain@
            },
    {
        if !check_quarter_wave(&quarter_sine) || !check_gain_curve(&envelope_gain, ENVELOPE_GAIN_LEN)
            || !check_gain_curve(&level_gain, LEVEL_GAIN_LEN)
            || envelope_gain[ATTENUATION_MAX as usize] > SILENT_GAIN_BOUND {
            None
        } else {
            Some(Tables { quarter_sine, envelope_gain, level_gain })
        }
    }

    /// The sine of `phase` in units of `SAMPLE_ONE`.
    pub fn sine(&self, phase: u32) -> (r: i32)
        requires
            self.wf(),
        ensures
            r == sine_of_phase(self.quarter_sine@, phase),
            -SAMPLE_ONE <= r <= SAMPLE_ONE,
    {
        let i: u32 = phase / 65536;
        proof {
            lemma_quarter_bounds(self.quarter_sine@);
        }
        if i < SINE_QUARTER {
            self.quarter_sine[i as usize]
        } else if i < 2 * SINE_QUARTER {
            self.quarter_sine[(2 * SINE_QUARTER - i) as usize]
        } else if i < 3 * SINE_QUARTER {
            -self.quarter_sine[(i - 2 * SINE_QUARTER) as usize]
        } else {
            -self.quarter_sine[(4 * SINE_QUARTER - i) as usize]
        }
    }

    /// The largest quarter-table index whose sine does not exceed `x`: the
    /// arcsine of `x` in units of a quarter period over `SINE_QUARTER`.
    pub fn arcsine_index(&self, x: i32) -> (r: u32)
        requires
            self.wf(),
            0 <= x <= SAMPLE_ONE,
        ensures
            r == arcsine_index_of(self.quarter_sine@, x as int),
            r <= SINE_QUARTER,
    {
        let ghost q = self.quarter_sine@;
        let mut lo: u32 = 0;
        let mut hi: u32 = SINE_QUARTER;
        while lo < hi
            invariant
                quarter_wave_shape(q),
                q == self.quarter_sine@,
                0 <= lo <= hi <= SINE_QUARTER,
                q[lo as int] <= x,
                hi == SINE_QUARTER || x < q[hi as int + 1],
            decreases hi - lo,
        {
            let mid: u32 = lo + (hi - lo + 1) / 2;
            if self.quarter_sine[mid as usize] <= x {
                lo = mid;
            } else {
                hi = mid - 1;
            }
        }
        proof {
            lemma_arcsine_index_unique(q, x as int, lo as int);
        }
        lo
    }
}

/// The index `k` of the quarter table with `q[k] <= x` and, unless `k` is the
/// last index, `x < q[k + 1]`.
pub open spec fn arcsine_index_of(q: Seq<i32>, x: int) -> int {
    choose|k: int|
        0 <= k <= SINE_QUARTER && #[trigger] q[k] <= x && (k == SINE_QUARTER || x < q[k + 1])
}

proof fn lemma_arcsine_index_unique(q: Seq<i32>, x: int, k: int)
    requires
        quarter_wave_shape(q),
        0 <= k <= SINE_QUARTER,
        q[k] <= x,
        k == SINE_QUARTER || x < q[k + 1],
    ensures
        arcsine_index_of(q, x) == k,
{
    let c = arcsine_index_of(q, x);
    assert(0 <= c <= SINE_QUARTER && q[c] <= x && (c == SINE_QUARTER || x < q[c + 1]));
    if c < k {
        assert(q[c + 1] <= q[k]);
    } else if k < c {
        assert(q[k + 1] <= q[c]);
    }
}

/// Every entry of a quarter wave lies in `0..=SAMPLE_ONE`.
pub proof fn lemma_quarter_bounds(q: Seq<i32>)
    requires
        quarter_wave_shape(q),
    ensures
        forall|i: int| 0 <= i < q.len() ==> 0 <= #[trigger] q[i] <= SAMPLE_ONE,
{
    assert forall|i: int| 0 <= i < q.len() implies 0 <= #[trigger] q[i] <= SAMPLE_ONE by {
        assert(q[0] <= q[i]);
        assert(q[i] <= q[SINE_QUARTER as int]);
    }
}

fn check_quarter_wave(q: &Vec<i32>) -> (r: bool)
    ensures
        r == quarter_wave_shape(q@),
{
    if q.len() != (SINE_QUARTER + 1) as usize || q[0] != 0 || q[SINE_QUARTER as usize] != SAMPLE_ONE {
        return false;
    }
    let mut k: usize = 1;
    while k < q.len()
        invariant
            1 <= k <= q.len(),
            q.len() == SINE_QUARTER + 1,
            forall|i: int, j: int| 0 <= i <= j < k ==> q@[i] <= q@[j],
        decreases q.len() - k,
    {
        if q[k - 1] > q[k] {
            return false;
        }
        assert forall|i: int, j: int| 0 <= i <= j < k + 1 implies q@[i] <= q@[j] by {
            if j == k && i < k {
                assert(q@[i] <= q@[k - 1]);
            }
        }
        k = k + 1;
    }
    true
}

fn check_gain_curve(g: &Vec<u32>, len: usize) -> (r: bool)
    requires
        len >= 1,
    ensures
        r == gain_curve_shape(g@, len as nat),
{
    if g.len() != len || g[0] != GAIN_ONE {
        return false;
    }
    let mut k: usize = 1;
    while k < g.len()
        invariant
            1 <= k <= g.len(),
            forall|i: int, j: int| 0 <= i <= j < k ==> g@[i] >= g@[j],
        decreases g.len() - k,
    {
        if g[k - 1] < g[k] {
            return false;
        }
        assert forall|i: int, j: int| 0 <= i <= j < k + 1 implies g@[i] >= g@[j] by {
            if j == k && i < k {
                assert(g@[i] >= g@[k - 1]);
            }
        }
        k = k + 1;
    }
    true
}

/// The envelope curve of a table set is unity at attenuation 0, never rises,
/// and is at most `SILENT_GAIN_BOUND` (a ten-thousandth of unity) at
/// `ATTENUATION_MAX`.
pub proof fn lemma_envelope_gain_monotone(t: Tables, i: int)
    requires
        t.wf(),
        0 <= i < ATTENUATION_MAX,
    ensures
        t.envelope_gain@[i] >= t.envelope_gain@[i + 1],
        t.envelope_gain@[0] == GAIN_ONE,
        t.envelope_gain@[ATTENUATION_MAX as int] <= SILENT_GAIN_BOUND,
{
}

} // verus!
