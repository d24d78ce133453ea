//! What a guess tells about one of its letters.

use crate::letter::Letter;
use vstd::prelude::*;

verus! {

/// What a guess tells about one of its letters. In the classic game this is the
/// colour of the letter's tile.
#[derive(Debug, PartialEq, Eq, Clone, Copy, Hash, Structural)]
pub enum LetterState {
    /// The secret has no further place for the letter.
    NotPresent,
    /// The secret holds the letter at another position.
    WrongPlace,
    /// The secret holds the letter at this position.
    Correct,
}

impl LetterState {
    /// The letter, marked as not present.
    pub fn not_present(letter: Letter) -> (r: (Letter, Self))
        ensures
            r == (letter, LetterState::NotPresent),
    {
        (letter, Self::NotPresent)
    }

    pub fn is_correct(self) -> (r: bool)
        ensures
            r == (self == LetterState::Correct),
    {
        self == Self::Correct
    }
}

impl Default for LetterState {
    fn default() -> (r: Self)
        ensures
            r == LetterState::NotPresent,
    {
        Self::NotPresent
    }
}

} // verus!
