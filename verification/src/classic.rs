//! The classic game: words of five letters, six guesses.

use vstd::prelude::*;

verus! {

/// A word of the classic game.
pub type Word = crate::word::Word<5>;

/// A marked guess of the classic game.
pub type Guess = crate::guess::Guess<5>;

/// The record of guesses of the classic game.
pub type Guesses = crate::guess::Guesses<5>;

/// The words of a classic game.
pub type WordsList = crate::word::list::WordsList<5>;

/// A classic game.
pub type Game = crate::game::Game<5>;

} // verus!
