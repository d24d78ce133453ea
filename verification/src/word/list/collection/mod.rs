//! A collection of words that is never empty, over whatever keeps the words.

pub mod adapter;

pub use adapter::Adapter;

use super::answers::{choose_word, drawn_or_first};
use super::error::ParseWordsListError;
use super::word_set::{lemma_views_contains, views};
use crate::letter::Letter;
use crate::word::words::{parse_from_str, parse_list};
use crate::word::Word;
use vstd::prelude::*;

verus! {

/// Words of `N` letters in an adapter of the kind `A`, at least one of them.
#[derive(Debug, Clone)]
pub struct Collection<const N: usize, A> {
    inner: A,
}

/// Whether `r` keeps exactly `words`, and is nothing at all where there are none.
pub open spec fn is_collection_of<const N: usize, A: Adapter<N>>(
    r: Option<Collection<N, A>>,
    words: Set<Seq<Letter>>,
) -> bool {
    match r {
        Some(collection) => collection@ == words && collection.is_filled(),
        None => words == Set::<Seq<Letter>>::empty(),
    }
}

/// Whether `r` is what reading the text as a collection gives: the error of
/// the first line that holds no word, else the error for a text without words,
/// else the words.
pub open spec fn is_collection_parse_of<const N: usize, A: Adapter<N>>(
    r: Result<Collection<N, A>, ParseWordsListError>,
    text: Seq<char>,
) -> bool {
    match parse_list(text, N as nat) {
        Ok(words) => if words.len() == 0 {
            r matches Err(error) && error == ParseWordsListError::EmptyInput
        } else {
            r matches Ok(collection) && collection@ == words.to_set() && collection.is_filled()
        },
        Err(reason) => r matches Err(error) && error == reason,
    }
}

/// A row of words is empty exactly if the set of its words is.
pub proof fn lemma_no_words_no_set(words: Seq<Seq<Letter>>)
    ensures
        (words.len() == 0) <==> (words.to_set() == Set::<Seq<Letter>>::empty()),
{
    if words.len() == 0 {
        assert(words.to_set() =~= Set::<Seq<Letter>>::empty());
    } else {
        assert(words.to_set().contains(words[0]));
    }
}

impl<const N: usize, A: Adapter<N>> View for Collection<N, A> {
    type V = Set<Seq<Letter>>;

    closed spec fn view(&self) -> Set<Seq<Letter>> {
        self.inner.words().to_set()
    }
}

impl<const N: usize, A: Adapter<N>> Collection<N, A> {
    /// Whether the collection keeps at least one word, as every collection
    /// that this module hands out does.
    pub closed spec fn is_filled(&self) -> bool {
        self.inner.words().len() > 0
    }

    /// The words in the order in which they are handed out.
    pub closed spec fn words(&self) -> Seq<Seq<Letter>> {
        self.inner.words()
    }

    /// The collection of what the adapter keeps; `None` if it keeps nothing.
    pub fn try_new(inner: A) -> (r: Option<Self>)
        ensures
            is_collection_of(r, inner.words().to_set()),
    {
        proof {
            lemma_no_words_no_set(inner.words());
        }
        if inner.is_empty() {
            None
        } else {
            Some(Self { inner })
        }
    }

    /// The collection of the given words; `None` if there are none.
    pub fn from_words(words: Vec<Word<N>>) -> (r: Option<Self>)
        ensures
            is_collection_of(r, views(words@).to_set()),
    {
        Self::try_new(A::from_words(words))
    }

    /// Reads the words of a collection, one on each line. A text without any
    /// word is refused as empty.
    pub fn from_str(s: &str) -> (r: Result<Self, ParseWordsListError>)
        ensures
            is_collection_parse_of(r, s@),
    {
        match parse_from_str::<N>(s) {
            Ok(words) => {
                proof {
                    lemma_no_words_no_set(views(words@));
                    assert(views(words@).len() == words@.len());
                }
                match Self::from_words(words) {
                    Some(collection) => {
                        proof {
                            lemma_no_words_no_set(collection.words());
                        }
                        Ok(collection)
                    },
                    None => Err(ParseWordsListError::EmptyInput),
                }
            },
            Err(error) => Err(error),
        }
    }

    /// Whether the collection keeps the word.
    pub fn contains(&self, word: Word<N>) -> (r: bool)
        ensures
            r == self@.contains(word@),
    {
        self.inner.contains(&word)
    }

    /// Draws one of the words with the given generator.
    pub fn random_with<R: rand::Rng>(&self, rng: &mut R) -> (word: Word<N>)
        requires
            self.is_filled(),
        ensures
            self@.contains(word@),
    {
        let words = self.inner.as_slice();
        let drawn = choose_word(words, rng);
        let word = drawn_or_first(words, drawn).unwrap();
        proof {
            lemma_views_contains(words@, word@);
        }
        word
    }

    /// Keeps one more word.
    pub fn push(&mut self, word: Word<N>)
        ensures
            final(self)@ == old(self)@.insert(word@),
            final(self).is_filled(),
    {
        self.inner.push(word);
        proof {
            lemma_no_words_no_set(self.inner.words());
            assert(self.inner.words().to_set().contains(word@));
        }
    }

    /// The words in the order in which they are handed out.
    pub fn iter(&self) -> (r: &[Word<N>])
        ensures
            views(r@) == self.words(),
            views(r@).to_set() == self@,
    {
        self.inner.as_slice()
    }
}

} // verus!
