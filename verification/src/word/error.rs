//! Why a string is not a word of a list.

use crate::letter::letters::ParseLettersError;
use crate::letter::Letter;
use vstd::prelude::*;

verus! {

/// Why a string could not be read as a word of a list.
#[derive(Debug, Clone)]
pub enum ParseWordError {
    /// The string is not a row of letters of the right length.
    ParseLetters(ParseLettersError),
    /// The list does not hold the word.
    NotInList { letters: Vec<Letter> },
}

impl From<ParseLettersError> for ParseWordError {
    fn from(value: ParseLettersError) -> (r: Self) {
        Self::ParseLetters(value)
    }
}

impl vstd::std_specs::convert::FromSpecImpl<ParseLettersError> for ParseWordError {
    open spec fn obeys_from_spec() -> bool {
        true
    }

    open spec fn from_spec(v: ParseLettersError) -> Self {
        ParseWordError::ParseLetters(v)
    }
}

} // verus!
