//! The words that may be guessed.

use super::answers::Answers;
use super::error::ParseWordsListError;
use super::word_set::{lemma_views_contains, views, WordSet};
use crate::letter::letters::Letters;
use crate::letter::Letter;
use crate::word::words::{parse_from_str, parse_list};
use crate::word::Word;
use vstd::prelude::*;

verus! {

/// The words that may be guessed: a set of words that is never empty.
#[derive(Debug)]
pub struct Guessable<const N: usize> {
    set: WordSet<N>,
}

impl<const N: usize> View for Guessable<N> {
    type V = Set<Seq<Letter>>;

    closed spec fn view(&self) -> Set<Seq<Letter>> {
        self.set@
    }
}

/// Whether `set` holds every one of `words`.
pub open spec fn includes(set: Set<Seq<Letter>>, words: Seq<Seq<Letter>>) -> bool {
    forall|i: int| 0 <= i < words.len() ==> set.contains(#[trigger] words[i])
}

/// Whether `set` holds none of `words`.
pub open spec fn excludes(set: Set<Seq<Letter>>, words: Seq<Seq<Letter>>) -> bool {
    forall|i: int| 0 <= i < words.len() ==> !set.contains(#[trigger] words[i])
}

/// Whether `r` is the set of `words`, and no set at all where there are no words.
pub open spec fn is_set_of<const N: usize>(r: Option<Guessable<N>>, words: Seq<Word<N>>) -> bool {
    match r {
        Some(guessable) => words.len() > 0 && guessable@ == views(words).to_set(),
        None => words.len() == 0,
    }
}

/// Whether `r` is what reading the text as the words that may be guessed
/// gives: the error of the first line that holds no word, else the error for a
/// text without words, else the set of the words.
pub open spec fn is_guessable_of<const N: usize>(
    r: Result<Guessable<N>, ParseWordsListError>,
    text: Seq<char>,
) -> bool {
    match parse_list(text, N as nat) {
        Ok(words) => if words.len() == 0 {
            r matches Err(error) && error == ParseWordsListError::EmptyInput
        } else {
            r matches Ok(guessable) && guessable@ == words.to_set()
        },
        Err(reason) => r matches Err(error) && error == reason,
    }
}

impl<const N: usize> Guessable<N> {
    #[verifier::type_invariant]
    spec fn not_empty(self) -> bool {
        self.set.elements().len() > 0
    }

    /// The words, each once, in the order in which they came.
    pub closed spec fn elements(self) -> Seq<Seq<Letter>> {
        self.set.elements()
    }

    fn try_new(set: WordSet<N>) -> (r: Option<Self>)
        ensures
            match r {
                Some(guessable) => guessable@ == set@ && guessable.elements() == set.elements()
                    && set.elements().len() > 0,
                None => set.elements().len() == 0,
            },
    {
        if set.is_empty() {
            None
        } else {
            Some(Self { set })
        }
    }

    /// The set of the given words; `None` if there are none.
    pub fn from_words(words: Vec<Word<N>>) -> (r: Option<Self>)
        ensures
            is_set_of(r, words@),
    {
        let set = WordSet::from_words(words);
        proof {
            if words@.len() > 0 {
                lemma_views_contains(words@, words@[0]@);
                assert(set@.contains(words@[0]@));
            } else {
                assert(views(words@).to_set() =~= Set::<Seq<Letter>>::empty());
            }
            set.lemma_elements();
        }
        Self::try_new(set)
    }

    /// Reads the words that may be guessed, one on each line. A text without
    /// any word is refused as empty.
    pub fn from_str(s: &str) -> (r: Result<Self, ParseWordsListError>)
        ensures
            is_guessable_of(r, s@),
    {
        match parse_from_str::<N>(s) {
            Ok(words) => match Self::from_words(words) {
                Some(guessable) => Ok(guessable),
                None => Err(ParseWordsListError::EmptyInput),
            },
            Err(error) => Err(error),
        }
    }

    /// Whether the word may be guessed.
    pub fn contains(&self, word: Word<N>) -> (r: bool)
        ensures
            r == self@.contains(word@),
    {
        self.set.contains(&word)
    }

    /// Whether the word of these letters may be guessed.
    pub fn contains_letters(&self, letters: Letters<N>) -> (r: bool)
        ensures
            r == self@.contains(letters@),
    {
        self.contains(Word::new_unchecked(letters))
    }

    /// How many words may be guessed: at least one.
    pub fn len(&self) -> (n: usize)
        ensures
            self@.finite(),
            n == self@.len(),
            n > 0,
    {
        proof {
            use_type_invariant(self);
        }
        self.set.len()
    }

    /// The words, each once, in the order in which they came.
    pub fn iter(&self) -> (words: Vec<Word<N>>)
        ensures
            views(words@) == self.elements(),
            views(words@).no_duplicates(),
            views(words@).to_set() == self@,
            words@.len() > 0,
    {
        proof {
            use_type_invariant(self);
        }
        let words = self.set.to_vec();
        proof {
            lemma_views_contains(words@, words@[0]@);
        }
        words
    }

    /// Whether every word that may be the secret may be guessed.
    pub fn includes_answers(&self, answers: &Answers<N>) -> (r: bool)
        ensures
            r == includes(self@, answers@),
    {
        let words = answers.as_slice();
        let mut i: usize = 0;
        while i < words.len()
            invariant
                i <= words@.len(),
                views(words@) == answers@,
                forall|k: int| 0 <= k < i ==> self@.contains(#[trigger] answers@[k]),
            decreases words@.len() - i,
        {
            proof {
                assert(views(words@)[i as int] == words@[i as int]@);
            }
            if !self.contains(words[i]) {
                return false;
            }
            i = i + 1;
        }
        true
    }

    /// Whether no word that may be the secret may be guessed.
    pub fn excludes_answers(&self, answers: &Answers<N>) -> (r: bool)
        ensures
            r == excludes(self@, answers@),
    {
        let words = answers.as_slice();
        let mut i: usize = 0;
        while i < words.len()
            invariant
                i <= words@.len(),
                views(words@) == answers@,
                forall|k: int| 0 <= k < i ==> !self@.contains(#[trigger] answers@[k]),
            decreases words@.len() - i,
        {
            proof {
                assert(views(words@)[i as int] == words@[i as int]@);
            }
            if self.contains(words[i]) {
                return false;
            }
            i = i + 1;
        }
        true
    }

    /// The words that may be the secret and may be guessed.
    pub fn answers_intersection(&self, answers: &Answers<N>) -> (both: WordSet<N>)
        ensures
            both@ == self@.intersect(answers@.to_set()),
    {
        let words = answers.as_slice();
        let mut both = WordSet::new();
        let mut i: usize = 0;
        proof {
            assert(answers@.take(0).to_set() =~= Set::<Seq<Letter>>::empty());
            assert(self@.intersect(Set::<Seq<Letter>>::empty()) =~= Set::<Seq<Letter>>::empty());
        }
        while i < words.len()
            invariant
                i <= words@.len(),
                views(words@) == answers@,
                both@ == self@.intersect(answers@.take(i as int).to_set()),
            decreases words@.len() - i,
        {
            let word = words[i];
            proof {
                assert(views(words@)[i as int] == word@);
                let shorter = answers@.take(i as int);
                let longer = answers@.take(i + 1);
                assert(longer =~= shorter.push(word@));
                assert forall|letters: Seq<Letter>|
                    longer.to_set().contains(letters) <==> shorter.to_set().insert(word@).contains(
                        letters,
                    ) by {
                    if longer.to_set().contains(letters) {
                        let k = choose|k: int| 0 <= k < longer.len() && longer[k] == letters;
                        if k < i {
                            assert(shorter[k] == letters);
                        }
                    }
                    if shorter.to_set().contains(letters) {
                        let k = choose|k: int| 0 <= k < shorter.len() && shorter[k] == letters;
                        assert(longer[k] == letters);
                    }
                    if letters == word@ {
                        assert(longer[i as int] == letters);
                    }
                }
                assert(longer.to_set() =~= shorter.to_set().insert(word@));
            }
            if self.contains(word) {
                both.insert(word);
                proof {
                    assert(both@ =~= self@.intersect(answers@.take(i + 1).to_set()));
                }
            } else {
                proof {
                    assert(both@ =~= self@.intersect(answers@.take(i + 1).to_set()));
                }
            }
            i = i + 1;
        }
        proof {
            assert(answers@.take(answers@.len() as int) =~= answers@);
        }
        both
    }

    /// Adds the given words to those that may be guessed.
    pub fn extend(&mut self, words: &[Word<N>])
        ensures
            final(self)@ == old(self)@.union(views(words@).to_set()),
    {
        proof {
            use_type_invariant(&*self);
        }
        let mut set = self.set.clone();
        proof {
            assert(views(words@.take(0)).to_set() =~= Set::<Seq<Letter>>::empty());
            assert(set@.union(Set::<Seq<Letter>>::empty()) =~= set@);
        }
        let ghost before = set@;
        let mut i: usize = 0;
        while i < words.len()
            invariant
                i <= words@.len(),
                set@ == before.union(views(words@.take(i as int)).to_set()),
                set.elements().len() > 0,
            decreases words@.len() - i,
        {
            proof {
                super::word_set::lemma_views_push(words@.take(i as int), words@[i as int]);
                assert(words@.take(i + 1) =~= words@.take(i as int).push(words@[i as int]));
            }
            set.insert(words[i]);
            proof {
                assert(set@ =~= before.union(views(words@.take(i + 1)).to_set()));
            }
            i = i + 1;
        }
        proof {
            assert(words@.take(words@.len() as int) =~= words@);
        }
        self.set = set;
    }
}

impl<const N: usize> Clone for Guessable<N> {
    fn clone(&self) -> (r: Self)
        ensures
            r@ == self@,
            r.elements() == self.elements(),
    {
        proof {
            use_type_invariant(self);
        }
        Self { set: self.set.clone() }
    }
}

} // verus!
