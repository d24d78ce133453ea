//! Why a list of words could not be made.

use crate::letter::letters::ParseLettersError;
use vstd::prelude::*;

verus! {

/// Why a list of words could not be made from a text.
#[derive(Debug, Clone)]
pub enum ParseWordsListError {
    /// A line that holds no word. `line` is its number, counted from 1.
    ParseLetters { line: usize, error: ParseLettersError },
    /// The text holds no word at all.
    EmptyInput,
    /// Some of the words that may be the secret may be guessed and others may not.
    InvariantViolation,
}

} // verus!
