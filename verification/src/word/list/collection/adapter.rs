//! What a collection of words has to offer, whatever it keeps them in.

use crate::letter::Letter;
use crate::word::list::word_set::{lemma_views_contains, lemma_views_push, views, WordSet};
use crate::word::Word;
use vstd::prelude::*;

verus! {

/// Something that keeps words of `N` letters: a set, or a plain row of words.
pub trait Adapter<const N: usize>: Sized {
    /// The words that are kept, in the order in which they are handed out.
    spec fn words(&self) -> Seq<Seq<Letter>>;

    /// Whether no word is kept.
    fn is_empty(&self) -> (r: bool)
        ensures
            r == (self.words().len() == 0),
    ;

    /// Keeps the given words.
    fn from_words(words: Vec<Word<N>>) -> (r: Self)
        ensures
            r.words().to_set() == views(words@).to_set(),
    ;

    /// Whether the word is kept.
    fn contains(&self, word: &Word<N>) -> (r: bool)
        ensures
            r == self.words().to_set().contains(word@),
    ;

    /// Keeps one more word.
    fn push(&mut self, word: Word<N>)
        ensures
            final(self).words().to_set() == old(self).words().to_set().insert(word@),
    ;

    /// The words that are kept, in the order in which they are handed out.
    fn as_slice(&self) -> (r: &[Word<N>])
        ensures
            views(r@) == self.words(),
    ;
}

impl<const N: usize> Adapter<N> for WordSet<N> {
    open spec fn words(&self) -> Seq<Seq<Letter>> {
        self.elements()
    }

    fn is_empty(&self) -> (r: bool) {
        WordSet::is_empty(self)
    }

    fn from_words(words: Vec<Word<N>>) -> (r: Self) {
        let set = WordSet::from_words(words);
        proof {
            set.lemma_elements();
        }
        set
    }

    fn contains(&self, word: &Word<N>) -> (r: bool) {
        proof {
            self.lemma_elements();
        }
        WordSet::contains(self, word)
    }

    fn push(&mut self, word: Word<N>) {
        proof {
            self.lemma_elements();
        }
        self.insert(word);
        proof {
            self.lemma_elements();
        }
    }

    fn as_slice(&self) -> (r: &[Word<N>]) {
        WordSet::as_slice(self)
    }
}

impl<const N: usize> Adapter<N> for Vec<Word<N>> {
    open spec fn words(&self) -> Seq<Seq<Letter>> {
        views(self@)
    }

    fn is_empty(&self) -> (r: bool) {
        self.len() == 0
    }

    fn from_words(words: Vec<Word<N>>) -> (r: Self) {
        words
    }

    fn contains(&self, word: &Word<N>) -> (r: bool) {
        let mut i: usize = 0;
        while i < self.len()
            invariant
                i <= self@.len(),
                forall|k: int| 0 <= k < i ==> (#[trigger] self@[k])@ != word@,
            decreases self@.len() - i,
        {
            if self[i].eq(word) {
                proof {
                    lemma_views_contains(self@, word@);
                }
                return true;
            }
            i = i + 1;
        }
        proof {
            lemma_views_contains(self@, word@);
        }
        false
    }

    fn push(&mut self, word: Word<N>) {
        proof {
            lemma_views_push(self@, word);
        }
        Vec::push(self, word);
    }

    fn as_slice(&self) -> (r: &[Word<N>]) {
        Vec::as_slice(self)
    }
}

} // verus!
