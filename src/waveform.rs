//! Oscillator waveforms: pure functions from a phase and a phase modulation
//! to a sample.
use vstd::prelude::*;
use crate::SAMPLE_ONE;
use crate::tables::{Tables, sine_of_phase, arcsine_index_of, SINE_QUARTER};

verus! {

/// One full period of the phase accumulator.
pub const PHASE_PERIOD: u64 = 0x1_0000_0000;

/// Half a period (π).
pub const HALF_PERIOD: u32 = 0x8000_0000;

/// A quarter period (π/2).
pub const QUARTER_PERIOD: u32 = 0x4000_0000;

/// A waveform. `Pulse` carries its duty cycle `d` as a fraction of 65536:
/// the output is low while `(sin + 1) / 2 < d`, which in sample units is
/// `sin + SAMPLE_ONE < d` since `2 · SAMPLE_ONE == 65536`.
#[derive(Clone, Copy, Debug, PartialEq, Eq, Structural)]
pub enum Waveform {
    Sine,
    HalfSine,
    AbsoluteSine,
    QuarterSine,
    AlternatingSine,
    CamelSine,
    InvertedSine,
    InvertedHalfSine,
    InvertedAlternatingSine,
    InvertedCamelSine,
    Square,
    Pulse(u16),
    Saw,
    Triangle,
    LogarithmicSaw,
    Noise,
}

/// The phase `phase + modulation`, wrapped to one period.
pub open spec fn modulated(phase: u32, modulation: u32) -> u32 {
    ((phase as int + modulation as int) % (PHASE_PERIOD as int)) as u32
}

/// Twice a phase, wrapped to one period.
pub open spec fn doubled(theta: u32) -> u32 {
    ((2 * theta as int) % (PHASE_PERIOD as int)) as u32
}

pub open spec fn abs(x: int) -> int {
    if x < 0 {
        -x
    } else {
        x
    }
}

/// The inverted sine: `1 - cos` rising over the first quarter, `1 + cos`
/// falling over the second, and the same arches negated over the second half.
pub open spec fn inverted_sine(q: Seq<i32>, theta: u32) -> int {
    let c = sine_of_phase(q, ((theta as int + QUARTER_PERIOD as int) % (PHASE_PERIOD as int)) as u32);
    let quarter = theta / QUARTER_PERIOD;
    if quarter == 0 {
        SAMPLE_ONE - c
    } else if quarter == 1 {
        SAMPLE_ONE + c
    } else if quarter == 2 {
        -(SAMPLE_ONE + c)
    } else {
        -(SAMPLE_ONE - c)
    }
}

/// A linear ramp from -1 at phase 0 to just under +1 at the end of the period.
pub open spec fn saw_of(theta: u32) -> int {
    theta as int / 65536 - SAMPLE_ONE
}

/// The triangle: 0 at phase 0, +1 at π/2, -1 at 3π/2, linear in between.
pub open spec fn triangle_of(theta: u32) -> int {
    let t = theta as int / 32768;
    if t < SAMPLE_ONE {
        t
    } else if t < 3 * SAMPLE_ONE {
        2 * SAMPLE_ONE - t
    } else {
        t - 4 * SAMPLE_ONE
    }
}

/// `asin(x) / (-π/2)` for the saw value `x`, with the arcsine read off the
/// quarter sine table.
pub open spec fn logarithmic_saw_of(q: Seq<i32>, theta: u32) -> int {
    let x = saw_of(theta);
    if x >= 0 {
        -2 * arcsine_index_of(q, x)
    } else {
        2 * arcsine_index_of(q, -x)
    }
}

/// The sample of waveform `w` at `phase` with phase modulation `modulation`.
/// `noise` is the sample that `Noise` produces, drawn by the caller.
#[verifier::opaque]
pub open spec fn wave_value(w: Waveform, q: Seq<i32>, phase: u32, modulation: u32, noise: i32) -> int {
    let theta = modulated(phase, modulation);
    let s = sine_of_phase(q, theta);
    let first_half = phase < HALF_PERIOD;
    match w {
        Waveform::Sine => s,
        Waveform::HalfSine => if first_half { s } else { 0 },
        Waveform::AbsoluteSine => abs(s),
        Waveform::QuarterSine => if theta % HALF_PERIOD < QUARTER_PERIOD { abs(s) } else { 0 },
        Waveform::AlternatingSine => if first_half { sine_of_phase(q, doubled(theta)) } else { 0 },
        Waveform::CamelSine => if first_half { abs(sine_of_phase(q, doubled(theta))) } else { 0 },
        Waveform::InvertedSine => inverted_sine(q, theta),
        Waveform::InvertedHalfSine => if first_half { inverted_sine(q, theta) } else { 0 },
        Waveform::InvertedAlternatingSine => if first_half { inverted_sine(q, doubled(theta)) } else { 0 },
        Waveform::InvertedCamelSine => if first_half { abs(inverted_sine(q, doubled(theta))) } else { 0 },
        Waveform::Square => if theta < HALF_PERIOD { SAMPLE_ONE as int } else { -SAMPLE_ONE },
        Waveform::Pulse(duty) => if s + SAMPLE_ONE < duty { -SAMPLE_ONE } else { SAMPLE_ONE as int },
        Waveform::Saw => saw_of(theta),
        Waveform::Triangle => triangle_of(theta),
        Waveform::LogarithmicSaw => logarithmic_saw_of(q, theta),
        Waveform::Noise => noise as int,
    }
}

/// Relies on `fastrand::i32`: a value drawn from the inclusive range
/// `lo..=hi`, which must not be empty.
#[verifier::external_body]
fn draw_noise(lo: i32, hi: i32) -> (r: i32)
    requires
        lo <= hi,
    ensures
        lo <= r <= hi,
{
    fastrand::i32(lo..=hi)
}

/// The stable tag of each waveform, in declaration order.
pub open spec fn tag_of(w: Waveform) -> u8 {
    match w {
        Waveform::Sine => 0,
        Waveform::HalfSine => 1,
        Waveform::AbsoluteSine => 2,
        Waveform::QuarterSine => 3,
        Waveform::AlternatingSine => 4,
        Waveform::CamelSine => 5,
        Waveform::InvertedSine => 6,
        Waveform::InvertedHalfSine => 7,
        Waveform::InvertedAlternatingSine => 8,
        Waveform::InvertedCamelSine => 9,
        Waveform::Square => 10,
        Waveform::Pulse(_) => 11,
        Waveform::Saw => 12,
        Waveform::Triangle => 13,
        Waveform::LogarithmicSaw => 14,
        Waveform::Noise => 15,
    }
}

/// The duty cycle that stands for one half.
pub const HALF_DUTY: u16 = 32768;

impl Waveform {
    pub fn sine() -> (r: Self)
        ensures
            r == Waveform::Sine,
    {
        Waveform::Sine
    }

    /// A pulse low for `duty / 65536` of each period; a duty of one half is a
    /// square. A duty of zero is refused.
    pub fn pulse(duty: u16) -> (r: Option<Self>)
        ensures
            duty == 0 <==> r is None,
            duty == HALF_DUTY ==> r == Some(Waveform::Square),
            duty != 0 && duty != HALF_DUTY ==> r == Some(Waveform::Pulse(duty)),
    {
        if duty == 0 {
            None
        } else if duty == HALF_DUTY {
            Some(Waveform::Square)
        } else {
            Some(Waveform::Pulse(duty))
        }
    }

    pub fn square() -> (r: Self)
        ensures
            r == Waveform::Square,
    {
        Waveform::Square
    }

    pub fn saw() -> (r: Self)
        ensures
            r == Waveform::Saw,
    {
        Waveform::Saw
    }

    pub fn triangle() -> (r: Self)
        ensures
            r == Waveform::Triangle,
    {
        Waveform::Triangle
    }

    pub fn noise() -> (r: Self)
        ensures
            r == Waveform::Noise,
    {
        Waveform::Noise
    }

    pub fn half_sine() -> (r: Self)
        ensures
            r == Waveform::HalfSine,
    {
        Waveform::HalfSine
    }

    pub fn absolute_sine() -> (r: Self)
        ensures
            r == Waveform::AbsoluteSine,
    {
        Waveform::AbsoluteSine
    }

    pub fn quarter_sine() -> (r: Self)
        ensures
            r == Waveform::QuarterSine,
    {
        Waveform::QuarterSine
    }

    pub fn alternating_sine() -> (r: Self)
        ensures
            r == Waveform::AlternatingSine,
    {
        Waveform::AlternatingSine
    }

    pub fn camel_sine() -> (r: Self)
        ensures
            r == Waveform::CamelSine,
    {
        Waveform::CamelSine
    }

    pub fn logarithmic_saw() -> (r: Self)
        ensures
            r == Waveform::LogarithmicSaw,
    {
        Waveform::LogarithmicSaw
    }

    /// The stable tag of this waveform.
    pub fn tag(&self) -> (r: u8)
        ensures
            r == tag_of(*self),
    {
        match self {
            Waveform::Sine => 0,
            Waveform::HalfSine => 1,
            Waveform::AbsoluteSine => 2,
            Waveform::QuarterSine => 3,
            Waveform::AlternatingSine => 4,
            Waveform::CamelSine => 5,
            Waveform::InvertedSine => 6,
            Waveform::InvertedHalfSine => 7,
            Waveform::InvertedAlternatingSine => 8,
            Waveform::InvertedCamelSine => 9,
            Waveform::Square => 10,
            Waveform::Pulse(_) => 11,
            Waveform::Saw => 12,
            Waveform::Triangle => 13,
            Waveform::LogarithmicSaw => 14,
            Waveform::Noise => 15,
        }
    }

    /// The waveform with tag `tag`; `duty` is used by `Pulse` alone. Unknown
    /// tags and a zero duty are refused.
    pub fn from_tag(tag: u8, duty: u16) -> (r: Option<Self>)
        ensures
            r is Some <==> (tag <= 15 && (tag != 11 || duty != 0)),
            r is Some ==> tag_of(r->0) == tag,
            r is Some && tag == 11 ==> r->0 == Waveform::Pulse(duty),
    {
        match tag {
            0 => Some(Waveform::Sine),
            1 => Some(Waveform::HalfSine),
            2 => Some(Waveform::AbsoluteSine),
            3 => Some(Waveform::QuarterSine),
            4 => Some(Waveform::AlternatingSine),
            5 => Some(Waveform::CamelSine),
            6 => Some(Waveform::InvertedSine),
            7 => Some(Waveform::InvertedHalfSine),
            8 => Some(Waveform::InvertedAlternatingSine),
            9 => Some(Waveform::InvertedCamelSine),
            10 => Some(Waveform::Square),
            11 => if duty == 0 {
                None
            } else {
                Some(Waveform::Pulse(duty))
            },
            12 => Some(Waveform::Saw),
            13 => Some(Waveform::Triangle),
            14 => Some(Waveform::LogarithmicSaw),
            15 => Some(Waveform::Noise),
            _ => None,
        }
    }

    /// The sample at `phase` under `modulation`, with `noise` as the sample
    /// that `Noise` produces.
    pub fn func(&self, tables: &Tables, phase: u32, modulation: u32, noise: i32) -> (r: i32)
        requires
            tables.wf(),
            -SAMPLE_ONE <= noise <= SAMPLE_ONE,
        ensures
            r == wave_value(*self, tables.quarter_sine@, phase, modulation, noise),
            -SAMPLE_ONE <= r <= SAMPLE_ONE,
    {
        let theta: u32 = phase.wrapping_add(modulation);
        let first_half = phase < HALF_PERIOD;
        assert(theta == modulated(phase, modulation));
        reveal(wave_value);
        match self {
            Waveform::Sine => tables.sine(theta),
            Waveform::HalfSine => if first_half {
                tables.sine(theta)
            } else {
                0
            },
            Waveform::AbsoluteSine => abs_sample(tables.sine(theta)),
            Waveform::QuarterSine => if theta % HALF_PERIOD < QUARTER_PERIOD {
                abs_sample(tables.sine(theta))
            } else {
                0
            },
            Waveform::AlternatingSine => if first_half {
                tables.sine(double_phase(theta))
            } else {
                0
            },
            Waveform::CamelSine => if first_half {
                abs_sample(tables.sine(double_phase(theta)))
            } else {
                0
            },
            Waveform::InvertedSine => inverted(tables, theta),
            Waveform::InvertedHalfSine => if first_half {
                inverted(tables, theta)
            } else {
                0
            },
            Waveform::InvertedAlternatingSine => if first_half {
                inverted(tables, double_phase(theta))
            } else {
                0
            },
            Waveform::InvertedCamelSine => if first_half {
                abs_sample(inverted(tables, double_phase(theta)))
            } else {
                0
            },
            Waveform::Square => if theta < HALF_PERIOD {
                SAMPLE_ONE
            } else {
                -SAMPLE_ONE
            },
            Waveform::Pulse(duty) => if tables.sine(theta) + SAMPLE_ONE < *duty as i32 {
                -SAMPLE_ONE
            } else {
                SAMPLE_ONE
            },
            Waveform::Saw => (theta / 65536) as i32 - SAMPLE_ONE,
            Waveform::Triangle => {
                let t: i32 = (theta / 32768) as i32;
                if t < SAMPLE_ONE {
                    t
                } else if t < 3 * SAMPLE_ONE {
                    2 * SAMPLE_ONE - t
                } else {
                    t - 4 * SAMPLE_ONE
                }
            },
            Waveform::LogarithmicSaw => {
                let x: i32 = (theta / 65536) as i32 - SAMPLE_ONE;
                if x >= 0 {
                    -2 * (tables.arcsine_index(x) as i32)
                } else {
                    2 * (tables.arcsine_index(-x) as i32)
                }
            },
            Waveform::Noise => noise,
        }
    }

    /// A fresh noise value if this waveform is `Noise`, else 0.
    pub fn draw(&self) -> (r: i32)
        ensures
            -SAMPLE_ONE <= r <= SAMPLE_ONE,
            *self != Waveform::Noise ==> r == 0,
    {
        if *self == Waveform::Noise {
            draw_noise(-SAMPLE_ONE, SAMPLE_ONE)
        } else {
            0
        }
    }
}

fn abs_sample(x: i32) -> (r: i32)
    requires
        -SAMPLE_ONE <= x <= SAMPLE_ONE,
    ensures
        r == abs(x as int),
{
    if x < 0 {
        -x
    } else {
        x
    }
}

fn double_phase(theta: u32) -> (r: u32)
    ensures
        r == doubled(theta),
{
    theta.wrapping_mul(2)
}

fn inverted(tables: &Tables, theta: u32) -> (r: i32)
    requires
        tables.wf(),
    ensures
        r == inverted_sine(tables.quarter_sine@, theta),
        -SAMPLE_ONE <= r <= SAMPLE_ONE,
{
    let shifted: u32 = theta.wrapping_add(QUARTER_PERIOD);
    assert(shifted == ((theta as int + QUARTER_PERIOD as int) % (PHASE_PERIOD as int)) as u32);
    let c = tables.sine(shifted);
    let quarter = theta / QUARTER_PERIOD;
    proof {
        crate::tables::lemma_quarter_bounds(tables.quarter_sine@);
    }
    if quarter == 0 {
        SAMPLE_ONE - c
    } else if quarter == 1 {
        SAMPLE_ONE + c
    } else if quarter == 2 {
        -(SAMPLE_ONE + c)
    } else {
        -(SAMPLE_ONE - c)
    }
}

/// A waveform repeats after one full period of phase: advancing the phase by
/// `2^32` (2π) leaves every sample unchanged.
pub proof fn lemma_waveform_periodic(w: Waveform, q: Seq<i32>, phase: int, modulation: u32, noise: i32)
    ensures
        wave_value(w, q, ((phase + PHASE_PERIOD) % (PHASE_PERIOD as int)) as u32, modulation, noise)
            == wave_value(w, q, (phase % (PHASE_PERIOD as int)) as u32, modulation, noise),
{
    reveal(wave_value);
    assert((phase + PHASE_PERIOD) % (PHASE_PERIOD as int) == phase % (PHASE_PERIOD as int)) by (nonlinear_arith);
}

} // verus!
