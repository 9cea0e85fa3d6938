//! The eight routing graphs between the four operators, and the depth of the
//! first operator's self-feedback.
use vstd::prelude::*;
use crate::ConfigError;

verus! {

/// Where an operator's phase modulation comes from, within the same sample.
#[derive(Clone, Copy, Debug, PartialEq, Eq, Structural)]
pub enum ModulatedBy {
    Nothing,
    Single(usize),
    Double(usize, usize),
}

/// One of the eight routing graphs.
#[derive(Clone, Copy, Debug, PartialEq, Eq, Structural)]
pub enum Algorithm {
    Zero,
    One,
    Two,
    Three,
    Four,
    Five,
    Six,
    Seven,
}

/// Which operators are summed into the output, and what modulates operators
/// 1, 2 and 3. Operator 0 is always modulated by its own feedback.
#[derive(Clone, Copy, Debug)]
pub struct AlgorithmDefinition {
    pub carriers: [bool; 4],
    pub modulators: [ModulatedBy; 3],
}

/// The carriers of each algorithm: `[0,0,0,1]` for 0 to 3, `[0,1,0,1]` for 4,
/// `[0,1,1,1]` for 5 and 6, all four for 7.
pub open spec fn is_carrier(a: Algorithm, i: int) -> bool {
    match a {
        Algorithm::Zero | Algorithm::One | Algorithm::Two | Algorithm::Three => i == 3,
        Algorithm::Four => i == 1 || i == 3,
        Algorithm::Five | Algorithm::Six => 1 <= i <= 3,
        Algorithm::Seven => 0 <= i <= 3,
    }
}

/// The modulation source of operator `i` (1, 2 or 3) in each algorithm.
pub open spec fn modulator_of(a: Algorithm, i: int) -> ModulatedBy {
    match a {
        Algorithm::Zero => ModulatedBy::Single((i - 1) as usize),
        Algorithm::One => if i == 1 {
            ModulatedBy::Nothing
        } else if i == 2 {
            ModulatedBy::Double(0, 1)
        } else {
            ModulatedBy::Single(2)
        },
        Algorithm::Two => if i == 1 {
            ModulatedBy::Nothing
        } else if i == 2 {
            ModulatedBy::Single(1)
        } else {
            ModulatedBy::Single(2)
        },
        Algorithm::Three => if i == 1 {
            ModulatedBy::Single(0)
        } else if i == 2 {
            ModulatedBy::Nothing
        } else {
            ModulatedBy::Double(1, 2)
        },
        Algorithm::Four => if i == 1 {
            ModulatedBy::Single(0)
        } else if i == 2 {
            ModulatedBy::Nothing
        } else {
            ModulatedBy::Single(3)
        },
        Algorithm::Five => ModulatedBy::Single(0),
        Algorithm::Six => if i == 1 {
            ModulatedBy::Single(0)
        } else {
            ModulatedBy::Nothing
        },
        Algorithm::Seven => ModulatedBy::Nothing,
    }
}

/// The number of an algorithm, `0..=7`.
pub open spec fn algorithm_index(a: Algorithm) -> u8 {
    match a {
        Algorithm::Zero => 0,
        Algorithm::One => 1,
        Algorithm::Two => 2,
        Algorithm::Three => 3,
        Algorithm::Four => 4,
        Algorithm::Five => 5,
        Algorithm::Six => 6,
        Algorithm::Seven => 7,
    }
}

impl Algorithm {
    /// The routing graph of this algorithm.
    pub fn get_definition(&self) -> (r: AlgorithmDefinition)
        ensures
            forall|i: int| 0 <= i < 4 ==> r.carriers@[i] == is_carrier(*self, i),
            forall|i: int| 1 <= i < 4 ==> r.modulators@[i - 1] == modulator_of(*self, i),
    {
        let r = match self {
            Algorithm::Zero => AlgorithmDefinition {
                carriers: [false, false, false, true],
                modulators: [ModulatedBy::Single(0), ModulatedBy::Single(1), ModulatedBy::Single(2)],
            },
            Algorithm::One => AlgorithmDefinition {
                carriers: [false, false, false, true],
                modulators: [ModulatedBy::Nothing, ModulatedBy::Double(0, 1), ModulatedBy::Single(2)],
            },
            Algorithm::Two => AlgorithmDefinition {
                carriers: [false, false, false, true],
                modulators: [ModulatedBy::Nothing, ModulatedBy::Single(1), ModulatedBy::Single(2)],
            },
            Algorithm::Three => AlgorithmDefinition {
                carriers: [false, false, false, true],
                modulators: [ModulatedBy::Single(0), ModulatedBy::Nothing, ModulatedBy::Double(1, 2)],
            },
            Algorithm::Four => AlgorithmDefinition {
                carriers: [false, true, false, true],
                modulators: [ModulatedBy::Single(0), ModulatedBy::Nothing, ModulatedBy::Single(3)],
            },
            Algorithm::Five => AlgorithmDefinition {
                carriers: [false, true, true, true],
                modulators: [ModulatedBy::Single(0), ModulatedBy::Single(0), ModulatedBy::Single(0)],
            },
            Algorithm::Six => AlgorithmDefinition {
                carriers: [false, true, true, true],
                modulators: [ModulatedBy::Single(0), ModulatedBy::Nothing, ModulatedBy::Nothing],
            },
            Algorithm::Seven => AlgorithmDefinition {
                carriers: [true, true, true, true],
                modulators: [ModulatedBy::Nothing, ModulatedBy::Nothing, ModulatedBy::Nothing],
            },
        };
        proof {
            assert(forall|i: int| 0 <= i < 4 ==> r.carriers@[i] == is_carrier(*self, i));
        }
        r
    }

    /// The algorithm numbered `index`; a number above 7 is refused.
    pub fn from_index(index: u8) -> (r: Result<Self, ConfigError>)
        ensures
            index <= 7 <==> r is Ok,
            r is Ok ==> algorithm_index(r->Ok_0) == index,
            r is Err ==> r->Err_0 == ConfigError::Algorithm,
    {
        match index {
            0 => Ok(Algorithm::Zero),
            1 => Ok(Algorithm::One),
            2 => Ok(Algorithm::Two),
            3 => Ok(Algorithm::Three),
            4 => Ok(Algorithm::Four),
            5 => Ok(Algorithm::Five),
            6 => Ok(Algorithm::Six),
            7 => Ok(Algorithm::Seven),
            _ => Err(ConfigError::Algorithm),
        }
    }

    /// The number of this algorithm.
    pub fn index(&self) -> (r: u8)
        ensures
            r == algorithm_index(*self),
    {
        match self {
            Algorithm::Zero => 0,
            Algorithm::One => 1,
            Algorithm::Two => 2,
            Algorithm::Three => 3,
            Algorithm::Four => 4,
            Algorithm::Five => 5,
            Algorithm::Six => 6,
            Algorithm::Seven => 7,
        }
    }
}

impl Default for Algorithm {
    fn default() -> (r: Self)
        ensures
            r == Algorithm::One,
    {
        Algorithm::One
    }
}

/// Self-feedback depth of operator 0, `0..=15`.
#[derive(Clone, Copy, Debug, PartialEq, Eq, Structural)]
pub enum FeedbackLevel {
    Zero,
    One,
    Two,
    Three,
    Four,
    Five,
    Six,
    Seven,
    Eight,
    Nine,
    Ten,
    Eleven,
    Twelve,
    Thirteen,
    Fourteen,
    Fifteen,
}

/// The number of a feedback level.
pub open spec fn feedback_index(f: FeedbackLevel) -> u8 {
    match f {
        FeedbackLevel::Zero => 0,
        FeedbackLevel::One => 1,
        FeedbackLevel::Two => 2,
        FeedbackLevel::Three => 3,
        FeedbackLevel::Four => 4,
        FeedbackLevel::Five => 5,
        FeedbackLevel::Six => 6,
        FeedbackLevel::Seven => 7,
        FeedbackLevel::Eight => 8,
        FeedbackLevel::Nine => 9,
        FeedbackLevel::Ten => 10,
        FeedbackLevel::Eleven => 11,
        FeedbackLevel::Twelve => 12,
        FeedbackLevel::Thirteen => 13,
        FeedbackLevel::Fourteen => 14,
        FeedbackLevel::Fifteen => 15,
    }
}

/// `2^n` for `n <= 23`.
pub open spec fn pow2(n: nat) -> nat
    decreases n,
{
    if n == 0 {
        1
    } else {
        2 * pow2((n - 1) as nat)
    }
}

/// Phase units per sample unit of feedback: level `n > 0` modulates by
/// `π · 2^(n - 8)` radians per full-scale sample, which is
/// `2^(n - 8) · 2^31 / SAMPLE_ONE = 2^(n + 8)` phase units per sample unit.
/// Level 0 disables feedback.
pub open spec fn feedback_multiplier(f: FeedbackLevel) -> nat {
    if feedback_index(f) == 0 {
        0
    } else {
        pow2((feedback_index(f) + 8) as nat)
    }
}

impl FeedbackLevel {
    /// The level numbered `index`; a number above 15 is refused.
    pub fn from_index(index: u8) -> (r: Result<Self, ConfigError>)
        ensures
            index <= 15 <==> r is Ok,
            r is Ok ==> feedback_index(r->Ok_0) == index,
            r is Err ==> r->Err_0 == ConfigError::FeedbackLevel,
    {
        match index {
            0 => Ok(FeedbackLevel::Zero),
            1 => Ok(FeedbackLevel::One),
            2 => Ok(FeedbackLevel::Two),
            3 => Ok(FeedbackLevel::Three),
            4 => Ok(FeedbackLevel::Four),
            5 => Ok(FeedbackLevel::Five),
            6 => Ok(FeedbackLevel::Six),
            7 => Ok(FeedbackLevel::Seven),
            8 => Ok(FeedbackLevel::Eight),
            9 => Ok(FeedbackLevel::Nine),
            10 => Ok(FeedbackLevel::Ten),
            11 => Ok(FeedbackLevel::Eleven),
            12 => Ok(FeedbackLevel::Twelve),
            13 => Ok(FeedbackLevel::Thirteen),
            14 => Ok(FeedbackLevel::Fourteen),
            15 => Ok(FeedbackLevel::Fifteen),
            _ => Err(ConfigError::FeedbackLevel),
        }
    }

    /// The phase units by which one sample unit of averaged feedback moves
    /// operator 0's phase.
    pub fn as_multiplier(&self) -> (r: u64)
        ensures
            r == feedback_multiplier(*self),
            r <= 8388608,
    {
        proof {
            reveal_with_fuel(pow2, 24);
        }
        match self {
            FeedbackLevel::Zero => 0,
            FeedbackLevel::One => 512,
            FeedbackLevel::Two => 1024,
            FeedbackLevel::Three => 2048,
            FeedbackLevel::Four => 4096,
            FeedbackLevel::Five => 8192,
            FeedbackLevel::Six => 16384,
            FeedbackLevel::Seven => 32768,
            FeedbackLevel::Eight => 65536,
            FeedbackLevel::Nine => 131072,
            FeedbackLevel::Ten => 262144,
            FeedbackLevel::Eleven => 524288,
            FeedbackLevel::Twelve => 1048576,
            FeedbackLevel::Thirteen => 2097152,
            FeedbackLevel::Fourteen => 4194304,
            FeedbackLevel::Fifteen => 8388608,
        }
    }
}

impl Default for FeedbackLevel {
    fn default() -> (r: Self)
        ensures
            r == FeedbackLevel::Zero,
    {
        FeedbackLevel::Zero
    }
}

} // verus!
