//! Words of a fixed length, and the marking of one word against another.

pub mod equality;
pub mod error;
pub mod evaluation;
pub mod letters_map;
pub mod list;
pub mod ordering;
pub mod validity;
pub mod words;

pub use error::ParseWordError;
pub use letters_map::LettersMap;
pub use validity::WordValidity;

use crate::guess::{all_correct, letters_in, Guess, LetterState};
use crate::letter::letters::{is_parse_of, parse_letters, Letters, ParseLettersError};
use list::WordsList;
use crate::letter::Letter;
use evaluation::{
    evaluate, lemma_occurrences_multiset, lemma_occurrences_split, matched, misplaced, occurrences,
    status_at, unmatched,
};
use vstd::prelude::*;

verus! {

/// Calls the standard library's `String::push`. What is claimed of it, and not
/// proved: the character is added at the end and nothing else changes.
#[verifier::external_body]
fn push_char(s: &mut String, ch: char)
    ensures
        final(s)@ == old(s)@.push(ch),
{
    s.push(ch)
}

/// A word of exactly `N` letters.
#[derive(Copy, Debug, Clone, Hash, Eq, Ord)]
pub struct Word<const N: usize> {
    letters: Letters<N>,
}

impl<const N: usize> View for Word<N> {
    type V = Seq<Letter>;

    closed spec fn view(&self) -> Seq<Letter> {
        self.letters@
    }
}

/// Whether position `i` is the first at which the two rows of letters differ.
pub open spec fn differ_at(a: Seq<Letter>, b: Seq<Letter>, i: int) -> bool {
    &&& 0 <= i < a.len()
    &&& a[i] != b[i]
    &&& forall|k: int| 0 <= k < i ==> a[k] == b[k]
}

/// At most one position is the first at which two rows of letters differ.
pub proof fn lemma_differ_at_unique(a: Seq<Letter>, b: Seq<Letter>, i: usize)
    requires
        differ_at(a, b, i as int),
    ensures
        forall|k: int| differ_at(a, b, k) ==> k == i,
{
}

/// The lowercase characters that stand for the letters.
pub open spec fn spelling(letters: Seq<Letter>) -> Seq<char> {
    letters.map_values(|letter: Letter| letter.spec_to_char())
}

/// Whether `r` is what reading `s` as a word of `N` letters gives.
pub open spec fn is_word_parse_of<const N: usize>(
    r: Result<Word<N>, ParseLettersError>,
    s: Seq<char>,
) -> bool {
    is_parse_of(
        match r {
            Ok(word) => Ok(word.spec_letters()),
            Err(error) => Err(error),
        },
        s,
    )
}

/// Whether `r` is what looking up `letters` among the words that may be guessed gives.
pub open spec fn is_lookup_of<const N: usize>(
    r: Result<Word<N>, ParseWordError>,
    guessable: Set<Seq<Letter>>,
    letters: Seq<Letter>,
) -> bool {
    match r {
        Ok(word) => guessable.contains(letters) && word@ == letters,
        Err(ParseWordError::NotInList { letters: refused }) => !guessable.contains(letters)
            && refused@ == letters,
        Err(_) => false,
    }
}

/// Whether `r` is what reading `s` as a word that may be guessed gives: the
/// error of the letters where `s` is no row of `N` letters, else the word where
/// it may be guessed, else its letters.
pub open spec fn is_guessable_word_of<const N: usize>(
    r: Result<Word<N>, ParseWordError>,
    guessable: Set<Seq<Letter>>,
    s: Seq<char>,
) -> bool {
    match parse_letters(s, N as nat) {
        Ok(letters) => is_lookup_of(r, guessable, letters),
        Err(error) => r matches Err(ParseWordError::ParseLetters(e)) && e == error,
    }
}

/// Whether `r` is what guessing `s` against the secret gives: the error of the
/// letters where `s` is no row of `N` letters, else the marked guess where the
/// word may be guessed, else its letters.
pub open spec fn is_guess_of<const N: usize>(
    r: Result<Guess<N>, ParseWordError>,
    secret: Seq<Letter>,
    guessable: Set<Seq<Letter>>,
    s: Seq<char>,
) -> bool {
    match parse_letters(s, N as nat) {
        Ok(letters) => if guessable.contains(letters) {
            r matches Ok(guess) && guess@ == evaluate(secret, letters)
        } else {
            r matches Err(ParseWordError::NotInList { letters: refused }) && refused@ == letters
        },
        Err(error) => r matches Err(ParseWordError::ParseLetters(e)) && e == error,
    }
}

impl<const N: usize> Word<N> {
    /// The letters of the word.
    pub closed spec fn spec_letters(self) -> Letters<N> {
        self.letters
    }

    /// A word has exactly `N` letters, and they are its view.
    pub proof fn lemma_len(self)
        ensures
            self@.len() == N,
            self.spec_letters()@ == self@,
    {
        self.letters.lemma_len();
    }

    /// Two words with the same letters in the same order are the same word.
    pub proof fn lemma_view_injective(self, other: Self)
        requires
            self@ == other@,
        ensures
            self == other,
    {
        self.letters.lemma_view_injective(other.letters);
    }

    /// The word of the given letters, whether or not any list holds it.
    pub fn new_unchecked(letters: Letters<N>) -> (word: Self)
        ensures
            word@ == letters@,
            word.spec_letters() == letters,
    {
        Self { letters }
    }

    /// Reads a word of exactly `N` letters of either case, whether or not any
    /// list holds it.
    pub fn from_str_unchecked(s: &str) -> (r: Result<Self, ParseLettersError>)
        ensures
            is_word_parse_of(r, s@),
    {
        match Letters::from_str(s) {
            Ok(letters) => Ok(Self::new_unchecked(letters)),
            Err(error) => Err(error),
        }
    }

    /// The word of the given letters, if it may be guessed.
    pub fn from_letters(list: &WordsList<N>, letters: Letters<N>) -> (r: Result<
        Self,
        ParseWordError,
    >)
        ensures
            is_lookup_of(r, list.parts().0, letters@),
    {
        if list.guessable().contains_letters(letters) {
            Ok(Self::new_unchecked(letters))
        } else {
            Err(ParseWordError::NotInList { letters: letters.to_vec() })
        }
    }

    /// Reads a word of exactly `N` letters of either case that may be guessed.
    pub fn from_str(list: &WordsList<N>, s: &str) -> (r: Result<Self, ParseWordError>)
        ensures
            is_guessable_word_of(r, list.parts().0, s@),
    {
        match Letters::from_str(s) {
            Ok(letters) => Self::from_letters(list, letters),
            Err(error) => Err(ParseWordError::ParseLetters(error)),
        }
    }

    /// Reads `s` as a word that may be guessed and marks it against this
    /// word, the secret.
    pub fn guess_str(self, list: &WordsList<N>, s: &str) -> (r: Result<Guess<N>, ParseWordError>)
        ensures
            is_guess_of(r, self@, list.parts().0, s@),
    {
        match Self::from_str(list, s) {
            Ok(word) => Ok(self.guess(word)),
            Err(error) => Err(error),
        }
    }

    /// The letters of the word.
    pub fn letters(self) -> (letters: Letters<N>)
        ensures
            letters@ == self@,
            letters == self.spec_letters(),
    {
        self.letters
    }

    /// The letter at position `index`.
    pub(crate) fn letter_at(&self, index: usize) -> (letter: Letter)
        requires
            index < N,
        ensures
            letter == self@[index as int],
    {
        *self.letters.get(index).unwrap()
    }

    /// The word in lowercase.
    pub fn to_string(&self) -> (s: String)
        ensures
            s@ == spelling(self@),
    {
        proof {
            self.lemma_len();
        }
        let mut s = String::new();
        let mut i: usize = 0;
        while i < N
            invariant
                i <= N,
                self@.len() == N,
                s@ == spelling(self@.take(i as int)),
            decreases N - i,
        {
            let letter = self.letter_at(i);
            push_char(&mut s, letter.to_char());
            proof {
                assert(self@.take(i + 1) =~= self@.take(i as int).push(letter));
                assert(spelling(self@.take(i + 1)) =~= spelling(self@.take(i as int)).push(
                    letter.spec_to_char(),
                ));
            }
            i = i + 1;
        }
        proof {
            assert(self@.take(N as int) =~= self@);
        }
        s
    }

    /// Whether `other` is the word as [`Word::to_string`] writes it: in lowercase.
    pub fn eq_str(&self, other: &str) -> (r: bool)
        ensures
            r == (spelling(self@) == other@),
    {
        proof {
            self.lemma_len();
        }
        let mut n: usize = 0;
        for ch in it: other.chars()
            invariant
                it.seq() == other@,
                self@.len() == N,
                n == it.index(),
                n <= N,
                spelling(self@).take(n as int) == other@.take(n as int),
        {
            if n >= N {
                return false;
            }
            if self.letter_at(n).to_char() != ch {
                return false;
            }
            proof {
                assert(spelling(self@).take(n + 1) =~= spelling(self@).take(n as int).push(
                    spelling(self@)[n as int],
                ));
                assert(other@.take(n + 1) =~= other@.take(n as int).push(ch));
            }
            n = n + 1;
        }
        proof {
            assert(other@.take(other@.len() as int) =~= other@);
            if n == N {
                assert(spelling(self@).take(N as int) =~= spelling(self@));
            }
        }
        n == N
    }

    /// Whether the word is made of these letters.
    pub fn eq_letters(&self, other: &Letters<N>) -> (r: bool)
        ensures
            r == (self@ == other@),
    {
        self.eq(&Self::new_unchecked(*other))
    }

    /// How often the word holds each letter.
    pub fn letters_map(self) -> (map: LettersMap)
        ensures
            map@ == self@.to_multiset(),
    {
        LettersMap::from_iter(self.letters.to_vec())
    }

    /// Marks the letters of `word`, the guess, against this word, the secret.
    ///
    /// First every letter that stands at the same position in the secret is
    /// marked correct. Then, from the left, every other letter is marked as in the
    /// wrong place while the secret has an occurrence of it left, and is left as
    /// not present after that.
    pub fn guess(self, word: Self) -> (guess: Guess<N>)
        ensures
            guess@ == evaluate(self@, word@),
            guess@.len() == N,
            letters_in(guess@) == word@,
            word@ == self@ ==> all_correct(guess@),
    {
        proof {
            self.lemma_len();
            word.lemma_len();
        }
        let ghost secret = self@;
        let ghost attempt = word@;
        let mut guess = Guess::none_present(word.letters);
        let mut map = self.letters_map();
        proof {
            guess.lemma_len();
            assert forall|letter: Letter| #[trigger]
                map@.count(letter) + matched(secret, attempt, letter, 0) == occurrences(
                    secret,
                    letter,
                    N as int,
                ) by {
                lemma_occurrences_multiset(secret, letter);
            }
        }

        let mut i: usize = 0;
        while i < N
            invariant
                i <= N,
                secret == self@,
                attempt == word@,
                secret.len() == N,
                attempt.len() == N,
                guess@.len() == N,
                forall|k: int|
                    0 <= k < N ==> #[trigger] guess@[k] == (
                        attempt[k],
                        if k < i && attempt[k] == secret[k] {
                            LetterState::Correct
                        } else {
                            LetterState::NotPresent
                        },
                    ),
                forall|letter: Letter| #[trigger]
                    map@.count(letter) + matched(secret, attempt, letter, i as int) == occurrences(
                        secret,
                        letter,
                        N as int,
                    ),
            decreases N - i,
        {
            let letter = word.letter_at(i);
            if letter == self.letter_at(i) {
                let ghost before = map@;
                guess.set_state(i, LetterState::Correct);
                map.decrement(letter);
                proof {
                    lemma_occurrences_split(secret, attempt, letter, i + 1, N as int);
                    assert forall|other: Letter| #[trigger]
                        map@.count(other) + matched(secret, attempt, other, i + 1) == occurrences(
                            secret,
                            other,
                            N as int,
                        ) by {
                        assert(before.count(other) + matched(secret, attempt, other, i as int)
                            == occurrences(secret, other, N as int));
                    }
                }
            } else {
                proof {
                    assert forall|other: Letter| #[trigger]
                        map@.count(other) + matched(secret, attempt, other, i + 1) == occurrences(
                            secret,
                            other,
                            N as int,
                        ) by {
                        assert(map@.count(other) + matched(secret, attempt, other, i as int)
                            == occurrences(secret, other, N as int));
                    }
                }
            }
            i = i + 1;
        }

        proof {
            assert forall|letter: Letter| #[trigger]
                map@.count(letter) + least_left(secret, attempt, letter, 0) == unmatched(
                    secret,
                    attempt,
                    letter,
                    N as int,
                ) by {
                lemma_occurrences_split(secret, attempt, letter, N as int, N as int);
                assert(map@.count(letter) + matched(secret, attempt, letter, N as int)
                    == occurrences(secret, letter, N as int));
            }
        }

        let mut i: usize = 0;
        while i < N
            invariant
                i <= N,
                secret == self@,
                attempt == word@,
                secret.len() == N,
                attempt.len() == N,
                guess@.len() == N,
                forall|k: int|
                    0 <= k < N ==> #[trigger] guess@[k] == (
                        attempt[k],
                        if k < i || attempt[k] == secret[k] {
                            status_at(secret, attempt, k)
                        } else {
                            LetterState::NotPresent
                        },
                    ),
                forall|letter: Letter| #[trigger]
                    map@.count(letter) + least_left(secret, attempt, letter, i as int) == unmatched(
                        secret,
                        attempt,
                        letter,
                        N as int,
                    ),
            decreases N - i,
        {
            let (letter, state) = guess.get(i).unwrap();
            let ghost before = map@;
            assert(before.count(letter) + least_left(secret, attempt, letter, i as int)
                == unmatched(secret, attempt, letter, N as int));
            if state != LetterState::Correct && map.contains_letter(letter) {
                guess.set_state(i, LetterState::WrongPlace);
                map.decrement(letter);
            }
            proof {
                assert forall|other: Letter| #[trigger]
                    map@.count(other) + least_left(secret, attempt, other, i + 1) == unmatched(
                        secret,
                        attempt,
                        other,
                        N as int,
                    ) by {
                    assert(before.count(other) + least_left(secret, attempt, other, i as int)
                        == unmatched(secret, attempt, other, N as int));
                }
            }
            i = i + 1;
        }
        proof {
            assert(guess@ =~= evaluate(secret, attempt));
            evaluation::lemma_evaluate_keeps_letters(secret, attempt);
            evaluation::lemma_secret_is_all_correct(secret);
        }
        guess
    }
}

/// How many of the occurrences of `letter` that no correct letter takes are
/// taken by the letters among the first `n` of the guess.
pub open spec fn least_left(
    secret: Seq<Letter>,
    guess: Seq<Letter>,
    letter: Letter,
    n: int,
) -> nat {
    evaluation::least(
        misplaced(secret, guess, letter, n),
        unmatched(secret, guess, letter, secret.len() as int),
    )
}

} // verus!
