//! The difficulty levels and the search depth that each of them stands for.

use crate::board::Variant;
use vstd::prelude::*;
use vstd::string::StringExecFns;

verus! {

/// How hard the computer plays.
#[derive(Clone, Copy, PartialEq, Eq, Debug, Structural)]
pub enum Difficulty {
    Easy,
    Medium,
    Hard,
}

/// The search depth of the numeric game, which has no levels.
pub const NUMERIC_DEPTH: u8 = 4;

/// The number of plies that the search looks ahead: one, two or three in
/// the letter game, always four in the numeric game.
pub open spec fn depth_bound_of(variant: Variant, difficulty: Difficulty) -> int {
    match variant {
        Variant::Numeric => 4,
        Variant::Letter => match difficulty {
            Difficulty::Easy => 1,
            Difficulty::Medium => 2,
            Difficulty::Hard => 3,
        },
    }
}

/// The number of plies that the search looks ahead in a game at a level.
pub fn depth_bound(variant: Variant, difficulty: Difficulty) -> (bound: u8)
    ensures
        bound == depth_bound_of(variant, difficulty),
        1 <= bound <= 4,
{
    match variant {
        Variant::Numeric => NUMERIC_DEPTH,
        Variant::Letter => match difficulty {
            Difficulty::Easy => 1,
            Difficulty::Medium => 2,
            Difficulty::Hard => 3,
        },
    }
}

impl Difficulty {
    /// The name of the level as a word.
    pub open spec fn label(self) -> Seq<char> {
        match self {
            Difficulty::Easy => "Easy"@,
            Difficulty::Medium => "Medium"@,
            Difficulty::Hard => "Hard"@,
        }
    }

    /// The name of the level: `Easy`, `Medium` or `Hard`.
    pub fn name(&self) -> (s: String)
        ensures
            s@ == self.label(),
    {
        match self {
            Difficulty::Easy => String::from_str("Easy"),
            Difficulty::Medium => String::from_str("Medium"),
            Difficulty::Hard => String::from_str("Hard"),
        }
    }
}

} // verus!
