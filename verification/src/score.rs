//! Scoring and grading: points awarded per hit as a step function of the
//! current combo streak, and the letter grade derived from final accuracy.

use vstd::prelude::*;

verus! {

/// Letter grade awarded for a song, from best (`SSS`) down to worst (`D`).
#[derive(Clone, Copy, Debug, PartialEq, Eq, Structural)]
pub enum Grade {
    SSS,
    SS,
    S,
    A,
    B,
    C,
    D,
}

/// The grade that an accuracy percentage earns: 100 is `SSS`, 95-99 `SS`,
/// 90-94 `S`, 80-89 `A`, 70-79 `B`, 60-69 `C`, and everything below `D`.
pub open spec fn grade_of(accuracy: int) -> Grade {
    if accuracy == 100 {
        Grade::SSS
    } else if 95 <= accuracy {
        Grade::SS
    } else if 90 <= accuracy {
        Grade::S
    } else if 80 <= accuracy {
        Grade::A
    } else if 70 <= accuracy {
        Grade::B
    } else if 60 <= accuracy {
        Grade::C
    } else {
        Grade::D
    }
}

impl Grade {
    /// The grade's full name.
    pub fn to_str(&self) -> (r: &'static str)
        ensures
            *self == Grade::SSS ==> r@ == "SSS"@,
            *self == Grade::SS ==> r@ == "SS"@,
            *self == Grade::S ==> r@ == "S"@,
            *self == Grade::A ==> r@ == "A"@,
            *self == Grade::B ==> r@ == "B"@,
            *self == Grade::C ==> r@ == "C"@,
            *self == Grade::D ==> r@ == "D"@,
    {
        match self {
            Self::SSS => "SSS",
            Self::SS => "SS",
            Self::S => "S",
            Self::A => "A",
            Self::B => "B",
            Self::C => "C",
            Self::D => "D",
        }
    }

    /// A one-letter form for score lists: the three `S` tiers all print `S`.
    pub fn to_print_str(&self) -> (r: &'static str)
        ensures
            (*self == Grade::SSS || *self == Grade::SS || *self == Grade::S) ==> r@ == "S"@,
            *self == Grade::A ==> r@ == "A"@,
            *self == Grade::B ==> r@ == "B"@,
            *self == Grade::C ==> r@ == "C"@,
            *self == Grade::D ==> r@ == "D"@,
    {
        match self {
            Self::SSS => "S",
            Self::SS => "S",
            Self::S => "S",
            Self::A => "A",
            Self::B => "B",
            Self::C => "C",
            Self::D => "D",
        }
    }
}

/// The outcome of one play of a song, derived once at song completion.
#[derive(Clone, Copy, Debug, Hash, PartialEq, Eq, Structural)]
pub struct Score {
    pub score: usize,
    pub max_combo: usize,
    pub accuracy: u8,
}

impl Score {
    pub fn new(score: usize, max_combo: usize, accuracy: u8) -> (r: Self)
        ensures
            r.score == score,
            r.max_combo == max_combo,
            r.accuracy == accuracy,
    {
        Self { score, max_combo, accuracy }
    }

    pub fn score(&self) -> (r: usize)
        ensures
            r == self.score,
    {
        self.score
    }

    /// The letter grade this score's accuracy earns. Accuracy above 100
    /// cannot come out of a played song and is excluded here.
    pub fn grade(&self) -> (r: Grade)
        requires
            self.accuracy <= 100,
        ensures
            r == grade_of(self.accuracy as int),
    {
        if self.accuracy == 100 {
            Grade::SSS
        } else if self.accuracy >= 95 {
            Grade::SS
        } else if self.accuracy >= 90 {
            Grade::S
        } else if self.accuracy >= 80 {
            Grade::A
        } else if self.accuracy >= 70 {
            Grade::B
        } else if self.accuracy >= 60 {
            Grade::C
        } else {
            Grade::D
        }
    }

    pub fn max_combo(&self) -> (r: usize)
        ensures
            r == self.max_combo,
    {
        self.max_combo
    }

    pub fn accuracy(&self) -> (r: u8)
        ensures
            r == self.accuracy,
    {
        self.accuracy
    }
}

/// Points awarded for one hit when the combo streak (hits in a row, the hit
/// being scored included) has the given value: a step function of five
/// breakpoints, 100 points below a combo of 10 and 10 more per full ten of
/// combo up to 150 at 50 and beyond.
pub open spec fn score_for_combo(combo: nat) -> nat {
    if combo < 10 {
        100
    } else if combo < 20 {
        110
    } else if combo < 30 {
        120
    } else if combo < 40 {
        130
    } else if combo < 50 {
        140
    } else {
        150
    }
}

/// Points awarded for one hit at the given combo streak value.
pub fn calc_score(combo: usize) -> (r: usize)
    ensures
        r == score_for_combo(combo as nat),
{
    if combo < 10 {
        100
    } else if combo < 20 {
        110
    } else if combo < 30 {
        120
    } else if combo < 40 {
        130
    } else if combo < 50 {
        140
    } else {
        150
    }
}

/// Law: `score_for_combo` is non-decreasing in the combo value.
pub proof fn lemma_score_for_combo_monotone(c1: nat, c2: nat)
    requires
        c1 <= c2,
    ensures
        score_for_combo(c1) <= score_for_combo(c2),
{
}

/// Law: `score_for_combo` is constant on each of the six buckets cut at the
/// breakpoints 0, 10, 20, 30, 40 and 50, with the values 100 through 150.
pub proof fn lemma_score_for_combo_steps(c: nat)
    ensures
        c < 10 ==> score_for_combo(c) == 100,
        10 <= c < 20 ==> score_for_combo(c) == 110,
        20 <= c < 30 ==> score_for_combo(c) == 120,
        30 <= c < 40 ==> score_for_combo(c) == 130,
        40 <= c < 50 ==> score_for_combo(c) == 140,
        50 <= c ==> score_for_combo(c) == 150,
{
}

} // verus!
