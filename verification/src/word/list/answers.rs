//! The words that may be the secret.

use super::error::ParseWordsListError;
use super::guessable::Guessable;
use super::word_set::{views, WordSet};
use crate::letter::Letter;
use crate::word::words::{parse_from_str, parse_list};
use crate::word::Word;
use rand::seq::SliceRandom;
use vstd::prelude::*;

verus! {

/// The words that may be the secret, in the order in which they were given.
/// There is always at least one. A word that was given twice is held twice.
#[derive(Debug)]
pub struct Answers<const N: usize> {
    base: Vec<Word<N>>,
}

impl<const N: usize> View for Answers<N> {
    type V = Seq<Seq<Letter>>;

    closed spec fn view(&self) -> Seq<Seq<Letter>> {
        views(self.base@)
    }
}

/// Whether `r` holds exactly `words`, and is nothing at all where there are none.
pub open spec fn is_answers_of<const N: usize>(r: Option<Answers<N>>, words: Seq<Word<N>>) -> bool {
    match r {
        Some(answers) => words.len() > 0 && answers@ == views(words),
        None => words.len() == 0,
    }
}

/// Whether `r` is what reading the text as the words that may be the secret
/// gives: the error of the first line that holds no word, else the error for a
/// text without words, else the words in their order.
pub open spec fn is_answers_parse_of<const N: usize>(
    r: Result<Answers<N>, ParseWordsListError>,
    text: Seq<char>,
) -> bool {
    match parse_list(text, N as nat) {
        Ok(words) => if words.len() == 0 {
            r matches Err(error) && error == ParseWordsListError::EmptyInput
        } else {
            r matches Ok(answers) && answers@ == words
        },
        Err(reason) => r matches Err(error) && error == reason,
    }
}

/// Calls `rand::seq::SliceRandom::choose` on the words. What is claimed of it, and
/// not proved: of no words it gives `None`, and else one of the words. Which one
/// depends on the generator.
#[verifier::external_body]
pub(crate) fn choose_word<const N: usize, R: rand::Rng>(words: &[Word<N>], rng: &mut R) -> (r:
    Option<Word<N>>)
    ensures
        words@.len() == 0 ==> r is None,
        words@.len() > 0 ==> r is Some && words@.contains(r->Some_0),
{
    words.choose(rng).copied()
}

/// The generator of random numbers that `rand` keeps for each thread.
#[verifier::external_type_specification]
#[verifier::external_body]
pub struct ExThreadRng(rand::rngs::ThreadRng);

/// `rand::thread_rng`, which hands out the generator of the current thread.
/// Nothing is claimed of it.
pub assume_specification[ rand::thread_rng ]() -> rand::rngs::ThreadRng
;

/// The word that was drawn, where one was; else the first of the words, if
/// there is any.
pub fn drawn_or_first<const N: usize>(words: &[Word<N>], drawn: Option<Word<N>>) -> (r: Option<
    Word<N>,
>)
    ensures
        r == match drawn {
            Some(word) => Some(word),
            None => if words@.len() > 0 {
                Some(words@[0])
            } else {
                None
            },
        },
{
    match drawn {
        Some(word) => Some(word),
        None => if words.len() > 0 {
            Some(words[0])
        } else {
            None
        },
    }
}

impl<const N: usize> Answers<N> {
    #[verifier::type_invariant]
    spec fn not_empty(self) -> bool {
        self.base@.len() > 0
    }

    fn try_new(words: Vec<Word<N>>) -> (r: Option<Self>)
        ensures
            is_answers_of(r, words@),
    {
        if words.len() == 0 {
            None
        } else {
            Some(Self { base: words })
        }
    }

    /// The given words as those that may be the secret; `None` if there are none.
    pub fn try_from_iter(iter: Vec<Word<N>>) -> (r: Option<Self>)
        ensures
            is_answers_of(r, iter@),
    {
        Self::try_new(iter)
    }

    /// Every word that may be guessed, as a word that may be the secret.
    pub fn from_guessable(guessable: &Guessable<N>) -> (answers: Self)
        ensures
            answers@ == guessable.elements(),
            answers@.to_set() == guessable@,
    {
        let words = guessable.iter();
        Self { base: words }
    }

    /// Reads the words that may be the secret, one on each line. A text without
    /// any word is refused as empty.
    pub fn from_str(s: &str) -> (r: Result<Self, ParseWordsListError>)
        ensures
            is_answers_parse_of(r, s@),
    {
        match parse_from_str::<N>(s) {
            Ok(words) => match Self::try_new(words) {
                Some(answers) => Ok(answers),
                None => Err(ParseWordsListError::EmptyInput),
            },
            Err(error) => Err(error),
        }
    }

    /// Adds every word that may be the secret to those that may be guessed.
    pub fn append_to_guessable(&self, guessable: &mut Guessable<N>)
        ensures
            final(guessable)@ == old(guessable)@.union(self@.to_set()),
    {
        guessable.extend(self.base.as_slice())
    }

    /// The words, in the order in which they were given.
    pub fn as_slice(&self) -> (words: &[Word<N>])
        ensures
            views(words@) == self@,
            words@.len() > 0,
    {
        proof {
            use_type_invariant(self);
        }
        self.base.as_slice()
    }

    /// How many words there are: at least one.
    pub fn len(&self) -> (n: usize)
        ensures
            n == self@.len(),
            n > 0,
    {
        proof {
            use_type_invariant(self);
        }
        self.base.len()
    }

    /// The words as a set, which holds each of them once.
    pub fn into_set(self) -> (set: WordSet<N>)
        ensures
            set@ == self@.to_set(),
    {
        WordSet::from_words(self.base)
    }

    /// The words as a set, which holds each of them once.
    pub fn to_set(&self) -> (set: WordSet<N>)
        ensures
            set@ == self@.to_set(),
    {
        self.clone().into_set()
    }

    /// Draws one of the words with the given generator.
    pub fn random_with<R: rand::Rng>(&self, rng: &mut R) -> (word: Word<N>)
        ensures
            self@.contains(word@),
    {
        proof {
            use_type_invariant(self);
        }
        let words = self.base.as_slice();
        let drawn = choose_word(words, rng);
        let word = drawn_or_first(words, drawn).unwrap();
        proof {
            let i = choose|i: int| 0 <= i < words@.len() && words@[i] == word;
            assert(views(words@)[i] == word@);
        }
        word
    }

    /// Draws one of the words with the generator of the current thread.
    pub fn random(&self) -> (word: Word<N>)
        ensures
            self@.contains(word@),
    {
        let mut rng = rand::thread_rng();
        self.random_with(&mut rng)
    }
}

impl<const N: usize> Clone for Answers<N> {
    fn clone(&self) -> (r: Self)
        ensures
            r@ == self@,
    {
        proof {
            use_type_invariant(self);
        }
        let mut out: Vec<Word<N>> = Vec::new();
        let mut i: usize = 0;
        while i < self.base.len()
            invariant
                i <= self.base@.len(),
                out@ == self.base@.take(i as int),
            decreases self.base@.len() - i,
        {
            out.push(self.base[i]);
            proof {
                assert(self.base@.take(i + 1) =~= self.base@.take(i as int).push(
                    self.base@[i as int],
                ));
            }
            i = i + 1;
        }
        proof {
            assert(self.base@.take(self.base@.len() as int) =~= self.base@);
        }
        Self { base: out }
    }
}

} // verus!
