//! The rule by which a guess is marked against a secret word, and what follows
//! from it.
//!
//! A letter of the guess that stands at the same position in the secret is
//! correct. Of the letters that are left in the secret, each can answer for one
//! more letter of the guess: going through the guess from the left, a letter that
//! is not correct is in the wrong place as long as the secret has an occurrence
//! of it left that no correct letter and no earlier letter of the guess has
//! taken, and is not present after that.

use crate::guess::{all_correct, letters_in, LetterState};
use crate::letter::Letter;
use vstd::prelude::*;

verus! {

/// How often `letter` stands among the first `n` letters of `word`.
pub open spec fn occurrences(word: Seq<Letter>, letter: Letter, n: int) -> nat
    decreases n,
{
    if n <= 0 {
        0
    } else {
        occurrences(word, letter, n - 1) + if word[n - 1] == letter {
            1nat
        } else {
            0nat
        }
    }
}

/// At how many of the first `n` positions both words hold `letter`.
pub open spec fn matched(secret: Seq<Letter>, guess: Seq<Letter>, letter: Letter, n: int) -> nat
    decreases n,
{
    if n <= 0 {
        0
    } else {
        matched(secret, guess, letter, n - 1) + if secret[n - 1] == letter && guess[n - 1]
            == letter {
            1nat
        } else {
            0nat
        }
    }
}

/// At how many of the first `n` positions the secret holds `letter` and the
/// guess another letter: the occurrences that no correct letter takes.
pub open spec fn unmatched(secret: Seq<Letter>, guess: Seq<Letter>, letter: Letter, n: int) -> nat
    decreases n,
{
    if n <= 0 {
        0
    } else {
        unmatched(secret, guess, letter, n - 1) + if secret[n - 1] == letter && guess[n - 1]
            != letter {
            1nat
        } else {
            0nat
        }
    }
}

/// At how many of the first `n` positions the guess holds `letter` and the
/// secret another letter: the letters that ask for an occurrence elsewhere.
pub open spec fn misplaced(secret: Seq<Letter>, guess: Seq<Letter>, letter: Letter, n: int) -> nat
    decreases n,
{
    if n <= 0 {
        0
    } else {
        misplaced(secret, guess, letter, n - 1) + if guess[n - 1] == letter && secret[n - 1]
            != letter {
            1nat
        } else {
            0nat
        }
    }
}

/// The mark of the letter at position `i` of the guess.
pub open spec fn status_at(secret: Seq<Letter>, guess: Seq<Letter>, i: int) -> LetterState {
    if guess[i] == secret[i] {
        LetterState::Correct
    } else if misplaced(secret, guess, guess[i], i) < unmatched(
        secret,
        guess,
        guess[i],
        secret.len() as int,
    ) {
        LetterState::WrongPlace
    } else {
        LetterState::NotPresent
    }
}

/// The guess with each of its letters marked against the secret.
pub open spec fn evaluate(secret: Seq<Letter>, guess: Seq<Letter>) -> Seq<(Letter, LetterState)> {
    Seq::new(guess.len(), |i: int| (guess[i], status_at(secret, guess, i)))
}

/// At how many of the first `n` positions the guess holds `letter` and it is
/// marked correct or in the wrong place.
pub open spec fn marked(secret: Seq<Letter>, guess: Seq<Letter>, letter: Letter, n: int) -> nat
    decreases n,
{
    if n <= 0 {
        0
    } else {
        marked(secret, guess, letter, n - 1) + if guess[n - 1] == letter && status_at(
            secret,
            guess,
            n - 1,
        ) != LetterState::NotPresent {
            1nat
        } else {
            0nat
        }
    }
}

/// The smaller of two numbers.
pub open spec fn least(a: nat, b: nat) -> nat {
    if a <= b {
        a
    } else {
        b
    }
}

/// Every occurrence of a letter in the secret is taken by a correct letter or
/// is not, and an occurrence among the first `n` letters is one among the first `m`.
pub proof fn lemma_occurrences_split(
    secret: Seq<Letter>,
    guess: Seq<Letter>,
    letter: Letter,
    n: int,
    m: int,
)
    requires
        n <= m,
    ensures
        occurrences(secret, letter, n) == matched(secret, guess, letter, n) + unmatched(
            secret,
            guess,
            letter,
            n,
        ),
        occurrences(secret, letter, n) <= occurrences(secret, letter, m),
        matched(secret, guess, letter, n) <= matched(secret, guess, letter, m),
        0 <= n ==> occurrences(secret, letter, n) <= n,
    decreases m - n, n,
{
    if n > 0 {
        lemma_occurrences_split(secret, guess, letter, n - 1, n - 1);
    }
    if n < m {
        lemma_occurrences_split(secret, guess, letter, n + 1, m);
    }
}

/// The count of a letter in the multiset of a word is the number of its occurrences.
pub proof fn lemma_occurrences_multiset(word: Seq<Letter>, letter: Letter)
    ensures
        word.to_multiset().count(letter) == occurrences(word, letter, word.len() as int),
    decreases word.len(),
{
    word.to_multiset_ensures();
    if word.len() > 0 {
        let front = word.drop_last();
        lemma_occurrences_multiset(front, letter);
        front.to_multiset_ensures();
        assert(word =~= front.push(word.last()));
        lemma_occurrences_prefix(word, front, letter, front.len() as int);
    } else {
        assert(word.to_multiset().len() == 0);
    }
}

/// Two words that agree on their first `n` letters hold a letter equally often among them.
pub proof fn lemma_occurrences_prefix(a: Seq<Letter>, b: Seq<Letter>, letter: Letter, n: int)
    requires
        n <= a.len(),
        n <= b.len(),
        forall|i: int| 0 <= i < n ==> a[i] == b[i],
    ensures
        occurrences(a, letter, n) == occurrences(b, letter, n),
    decreases n,
{
    if n > 0 {
        lemma_occurrences_prefix(a, b, letter, n - 1);
    }
}

/// The letters marked among the first `n` are the correct ones and, of those
/// that ask for an occurrence elsewhere, as many as the secret has left.
pub proof fn lemma_marked_split(secret: Seq<Letter>, guess: Seq<Letter>, letter: Letter, n: int)
    requires
        secret.len() == guess.len(),
        n <= guess.len(),
    ensures
        marked(secret, guess, letter, n) == matched(secret, guess, letter, n) + least(
            misplaced(secret, guess, letter, n),
            unmatched(secret, guess, letter, secret.len() as int),
        ),
    decreases n,
{
    if n > 0 {
        lemma_marked_split(secret, guess, letter, n - 1);
    }
}

/// Guessing the secret itself marks every letter correct.
pub proof fn lemma_secret_is_all_correct(word: Seq<Letter>)
    ensures
        all_correct(evaluate(word, word)),
{
}

/// A marked guess has as many positions as the guess, and each holds the
/// letter that the guess holds there.
pub proof fn lemma_evaluate_keeps_letters(secret: Seq<Letter>, guess: Seq<Letter>)
    ensures
        evaluate(secret, guess).len() == guess.len(),
        letters_in(evaluate(secret, guess)) == guess,
        forall|i: int| 0 <= i < guess.len() ==> (#[trigger] evaluate(secret, guess)[i]).0 == guess[i],
{
    assert(letters_in(evaluate(secret, guess)) =~= guess);
}

/// A letter is marked correct or in the wrong place no more often than the
/// secret holds it.
pub proof fn lemma_marks_bounded(secret: Seq<Letter>, guess: Seq<Letter>, letter: Letter)
    requires
        secret.len() == guess.len(),
    ensures
        marked(secret, guess, letter, guess.len() as int) <= occurrences(
            secret,
            letter,
            secret.len() as int,
        ),
{
    let n = guess.len() as int;
    lemma_marked_split(secret, guess, letter, n);
    lemma_occurrences_split(secret, guess, letter, n, n);
}

/// A letter is marked as in the wrong place only where the secret holds it
/// more often than the guess holds it correctly: the correct letters never use
/// up what a letter in the wrong place is given.
pub proof fn lemma_wrong_place_has_budget(secret: Seq<Letter>, guess: Seq<Letter>, i: int)
    requires
        secret.len() == guess.len(),
        0 <= i < guess.len(),
        status_at(secret, guess, i) == LetterState::WrongPlace,
    ensures
        matched(secret, guess, guess[i], guess.len() as int) < occurrences(
            secret,
            guess[i],
            secret.len() as int,
        ),
        guess[i] != secret[i],
{
    let n = guess.len() as int;
    lemma_occurrences_split(secret, guess, guess[i], n, n);
}

} // verus!
