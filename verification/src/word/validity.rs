//! What a word of a list may be used for.

use vstd::prelude::*;

verus! {

/// What a word of a list may be used for: every word may be guessed, and some
/// may also be the secret.
#[derive(Debug, Clone, Copy, PartialEq, Eq, Hash, Structural)]
pub struct WordValidity {
    inner: WordValidityInner,
}

#[derive(Debug, Clone, Copy, PartialEq, Eq, Hash, Structural)]
enum WordValidityInner {
    Guess,
    GuessAndAnswer,
}

impl WordValidity {
    /// Whether the word may be the secret.
    pub closed spec fn may_answer(self) -> bool {
        self.inner == WordValidityInner::GuessAndAnswer
    }

    /// Two validities that say the same of the secret are the same.
    pub proof fn lemma_decided_by_answer(self, other: Self)
        requires
            self.may_answer() == other.may_answer(),
        ensures
            self == other,
    {
    }

    /// The validity of a word that may only be guessed.
    pub fn guess() -> (r: Self)
        ensures
            !r.may_answer(),
    {
        Self { inner: WordValidityInner::Guess }
    }

    /// The validity of a word that may be guessed and may be the secret.
    pub fn answer() -> (r: Self)
        ensures
            r.may_answer(),
    {
        Self { inner: WordValidityInner::GuessAndAnswer }
    }

    /// Whether the word may be guessed: always.
    pub fn is_guess(self) -> (r: bool)
        ensures
            r,
    {
        true
    }

    /// Whether the word may be the secret.
    pub fn is_answer(self) -> (r: bool)
        ensures
            r == self.may_answer(),
    {
        self.inner == WordValidityInner::GuessAndAnswer
    }
}

impl Default for WordValidity {
    fn default() -> (r: Self)
        ensures
            !r.may_answer(),
    {
        Self::guess()
    }
}

} // verus!
