//! A set of words, kept as the words in the order in which they came, each
//! once, and found again through a hash map from a number made of a word's
//! letters to the words that give that number.

use crate::letter::Letter;
use crate::word::Word;
use std::collections::HashMap;
use vstd::prelude::*;

verus! {

/// The letters of each word, word by word.
pub open spec fn views<const N: usize>(words: Seq<Word<N>>) -> Seq<Seq<Letter>> {
    words.map_values(|word: Word<N>| word@)
}

/// The numbers below which the key of a word is kept before a letter is added to it.
pub const KEY_RANGE: u64 = 576460752303423488;

/// The key after one more letter.
pub open spec fn key_step(key: u64, letter: Letter) -> u64 {
    ((key % KEY_RANGE) * 26 + letter.ordinal()) as u64
}

/// The number under which a word is looked up. Different words may share a
/// key: the words under one key are told apart letter by letter.
pub open spec fn key_of(letters: Seq<Letter>) -> u64
    decreases letters.len(),
{
    if letters.len() == 0 {
        0
    } else {
        key_step(key_of(letters.drop_last()), letters.last())
    }
}

/// The words of a set and the way to find them.
#[derive(Debug)]
struct Store<const N: usize> {
    words: Vec<Word<N>>,
    index: HashMap<u64, Vec<Word<N>>>,
}

/// A set of words of `N` letters. It may be empty.
#[derive(Debug)]
pub struct WordSet<const N: usize> {
    store: Store<N>,
}

/// Whether the index finds exactly the words: each word stands once among the
/// words and is listed under its key, and whatever is listed is one of the words.
spec fn finds<const N: usize>(words: Seq<Word<N>>, index: Map<u64, Vec<Word<N>>>) -> bool {
    &&& views(words).no_duplicates()
    &&& forall|i: int|
        0 <= i < words.len() ==> index.contains_key(key_of((#[trigger] words[i])@)) && listed(
            index[key_of(words[i]@)]@,
            words[i]@,
        )
    &&& forall|key: u64, j: int|
        index.contains_key(key) && 0 <= j < index[key]@.len() ==> listed(
            words,
            (#[trigger] index[key]@[j])@,
        )
}

/// Whether one of the words has these letters.
spec fn listed<const N: usize>(words: Seq<Word<N>>, letters: Seq<Letter>) -> bool {
    exists|i: int| 0 <= i < words.len() && (#[trigger] words[i])@ == letters
}

impl<const N: usize> View for WordSet<N> {
    type V = Set<Seq<Letter>>;

    closed spec fn view(&self) -> Set<Seq<Letter>> {
        views(self.store.words@).to_set()
    }
}

/// A word is among the letters of some words exactly if one of them has its letters.
pub proof fn lemma_views_contains<const N: usize>(words: Seq<Word<N>>, letters: Seq<Letter>)
    ensures
        views(words).to_set().contains(letters) <==> exists|i: int|
            0 <= i < words.len() && (#[trigger] words[i])@ == letters,
        views(words).len() == words.len(),
{
    let v = views(words);
    if v.to_set().contains(letters) {
        let i = choose|i: int| 0 <= i < v.len() && v[i] == letters;
        assert(words[i]@ == letters);
    }
    if exists|i: int| 0 <= i < words.len() && (#[trigger] words[i])@ == letters {
        let i = choose|i: int| 0 <= i < words.len() && (#[trigger] words[i])@ == letters;
        assert(v[i] == letters);
    }
}

/// Adding a word to the end of some words adds its letters to their set.
pub proof fn lemma_views_push<const N: usize>(words: Seq<Word<N>>, word: Word<N>)
    ensures
        views(words.push(word)) == views(words).push(word@),
        views(words.push(word)).to_set() == views(words).to_set().insert(word@),
{
    let longer = views(words.push(word));
    let shorter = views(words);
    assert(longer =~= shorter.push(word@));
    assert forall|letters: Seq<Letter>|
        longer.to_set().contains(letters) <==> shorter.to_set().insert(word@).contains(
            letters,
        ) by {
        if longer.to_set().contains(letters) {
            let i = choose|i: int| 0 <= i < longer.len() && longer[i] == letters;
            if i < shorter.len() {
                assert(shorter[i] == letters);
            }
        }
        if shorter.to_set().contains(letters) {
            let i = choose|i: int| 0 <= i < shorter.len() && shorter[i] == letters;
            assert(longer[i] == letters);
        }
        if letters == word@ {
            assert(longer[shorter.len() as int] == letters);
        }
    }
    assert(longer.to_set() =~= shorter.to_set().insert(word@));
}

impl<const N: usize> Store<N> {
    fn new() -> (store: Self)
        ensures
            store.words@ == Seq::<Word<N>>::empty(),
            store.index@ == Map::<u64, Vec<Word<N>>>::empty(),
    {
        Self { words: Vec::new(), index: HashMap::new() }
    }
}

/// The key of a word.
fn key_of_word<const N: usize>(word: &Word<N>) -> (key: u64)
    ensures
        key == key_of(word@),
{
    proof {
        word.lemma_len();
    }
    let mut key: u64 = 0;
    let mut i: usize = 0;
    proof {
        assert(word@.take(0) =~= Seq::<Letter>::empty());
    }
    while i < N
        invariant
            i <= N,
            word@.len() == N,
            key == key_of(word@.take(i as int)),
        decreases N - i,
    {
        let letter = word.letter_at(i);
        proof {
            letter.lemma_nth_ordinal();
            assert(word@.take(i + 1).drop_last() =~= word@.take(i as int));
        }
        key = (key % KEY_RANGE) * 26 + letter.index() as u64;
        i = i + 1;
    }
    proof {
        assert(word@.take(N as int) =~= word@);
    }
    key
}

impl<const N: usize> WordSet<N> {
    #[verifier::type_invariant]
    spec fn index_finds_words(self) -> bool {
        finds(self.store.words@, self.store.index@)
    }

    /// The words of the set, in the order in which they came.
    pub closed spec fn elements(self) -> Seq<Seq<Letter>> {
        views(self.store.words@)
    }

    /// The set holds what its words are, and is empty exactly if there are none.
    pub proof fn lemma_elements(self)
        ensures
            self.elements().to_set() == self@,
            (self.elements().len() == 0) <==> (self@ == Set::<Seq<Letter>>::empty()),
    {
        if self.elements().len() == 0 {
            assert(self@ =~= Set::<Seq<Letter>>::empty());
        } else {
            assert(self@.contains(self.elements()[0]));
        }
    }

    /// The empty set.
    pub fn new() -> (set: Self)
        ensures
            set@ == Set::<Seq<Letter>>::empty(),
            set.elements() == Seq::<Seq<Letter>>::empty(),
    {
        let store = Store::new();
        proof {
            assert(views(store.words@) =~= Seq::<Seq<Letter>>::empty());
        }
        let set = Self { store };
        proof {
            assert(set@ =~= Set::<Seq<Letter>>::empty());
        }
        set
    }

    /// The set of the given words.
    pub fn from_words(words: Vec<Word<N>>) -> (set: Self)
        ensures
            set@ == views(words@).to_set(),
    {
        let mut set = Self::new();
        let mut i: usize = 0;
        proof {
            assert(views(words@.take(0)) =~= Seq::<Seq<Letter>>::empty());
            assert(views(words@.take(0)).to_set() =~= Set::<Seq<Letter>>::empty());
        }
        while i < words.len()
            invariant
                i <= words@.len(),
                set@ == views(words@.take(i as int)).to_set(),
            decreases words@.len() - i,
        {
            proof {
                lemma_views_push(words@.take(i as int), words@[i as int]);
                assert(words@.take(i + 1) =~= words@.take(i as int).push(words@[i as int]));
            }
            set.insert(words[i]);
            i = i + 1;
        }
        proof {
            assert(words@.take(words@.len() as int) =~= words@);
        }
        set
    }

    /// Whether the set holds the word.
    pub fn contains(&self, word: &Word<N>) -> (r: bool)
        ensures
            r == self@.contains(word@),
    {
        proof {
            use_type_invariant(self);
            lemma_views_contains(self.store.words@, word@);
        }
        let key = key_of_word(word);
        match self.store.index.get(&key) {
            Some(bucket) => {
                let mut j: usize = 0;
                while j < bucket.len()
                    invariant
                        j <= bucket@.len(),
                        forall|k: int| 0 <= k < j ==> (#[trigger] bucket@[k])@ != word@,
                        finds(self.store.words@, self.store.index@),
                        self.store.index@.contains_key(key),
                        self.store.index@[key] == *bucket,
                    decreases bucket@.len() - j,
                {
                    if bucket[j].eq(word) {
                        proof {
                            assert(listed(self.store.words@, self.store.index@[key]@[j as int]@));
                            lemma_views_contains(self.store.words@, word@);
                        }
                        return true;
                    }
                    j = j + 1;
                }
                proof {
                    if self@.contains(word@) {
                        let i = choose|i: int|
                            0 <= i < self.store.words@.len() && (#[trigger] self.store.words@[i])@
                                == word@;
                        assert(listed(bucket@, self.store.words@[i]@));
                    }
                }
                false
            },
            None => {
                proof {
                    if self@.contains(word@) {
                        let i = choose|i: int|
                            0 <= i < self.store.words@.len() && (#[trigger] self.store.words@[i])@
                                == word@;
                        assert(self.store.index@.contains_key(key_of(self.store.words@[i]@)));
                    }
                }
                false
            },
        }
    }

    /// Adds a word. Returns whether it was new to the set.
    pub fn insert(&mut self, word: Word<N>) -> (r: bool)
        ensures
            final(self)@ == old(self)@.insert(word@),
            r == !old(self)@.contains(word@),
            final(self).elements() == if r {
                old(self).elements().push(word@)
            } else {
                old(self).elements()
            },
    {
        proof {
            use_type_invariant(&*self);
        }
        if self.contains(&word) {
            proof {
                assert(self@.insert(word@) =~= self@);
            }
            false
        } else {
            let key = key_of_word(&word);
            let mut store: Store<N> = Store::new();
            proof {
                assert(views(store.words@) =~= Seq::<Seq<Letter>>::empty());
            }
            core::mem::swap(&mut self.store, &mut store);
            let ghost before = store.words@;
            let ghost index_before = store.index@;
            store.words.push(word);
            let mut bucket: Vec<Word<N>> = match store.index.remove(&key) {
                Some(bucket) => bucket,
                None => Vec::new(),
            };
            let ghost bucket_before = bucket@;
            bucket.push(word);
            store.index.insert(key, bucket);
            proof {
                lemma_views_push(before, word);
                lemma_views_contains(before, word@);
                let after = store.words@;
                let index_after = store.index@;
                let longer = views(after);
                assert forall|i: int, j: int|
                    0 <= i < longer.len() && 0 <= j < longer.len() && i != j implies longer[i]
                    != longer[j] by {
                    if i < before.len() && j < before.len() {
                        assert(views(before)[i] != views(before)[j]);
                    } else if i < before.len() {
                        assert(before[i]@ != word@);
                    } else {
                        assert(before[j]@ != word@);
                    }
                }
                assert(index_after[key]@ == bucket_before.push(word));
                assert forall|i: int| 0 <= i < after.len() implies index_after.contains_key(
                    key_of((#[trigger] after[i])@),
                ) && listed(index_after[key_of(after[i]@)]@, after[i]@) by {
                    if i < before.len() {
                        assert(after[i] == before[i]);
                        let k = key_of(before[i]@);
                        assert(index_before.contains_key(k));
                        assert(listed(index_before[k]@, before[i]@));
                        if k == key {
                            let j = choose|j: int|
                                0 <= j < bucket_before.len() && (#[trigger] bucket_before[j])@
                                    == before[i]@;
                            assert(index_after[key]@[j] == bucket_before[j]);
                        }
                    } else {
                        assert(index_after[key]@[bucket_before.len() as int] == word);
                    }
                }
                assert forall|k: u64, j: int|
                    index_after.contains_key(k) && 0 <= j < index_after[k]@.len() implies listed(
                    after,
                    (#[trigger] index_after[k]@[j])@,
                ) by {
                    if k == key && j == bucket_before.len() {
                        assert(after[before.len() as int] == word);
                    } else {
                        if k == key {
                            assert(index_after[k]@[j] == bucket_before[j]);
                            assert(index_before.contains_key(key));
                            assert(listed(before, index_before[key]@[j]@));
                        } else {
                            assert(listed(before, index_before[k]@[j]@));
                        }
                        let letters = index_after[k]@[j]@;
                        let i = choose|i: int| 0 <= i < before.len() && (#[trigger] before[i])@
                            == letters;
                        assert(after[i] == before[i]);
                    }
                }
            }
            core::mem::swap(&mut self.store, &mut store);
            true
        }
    }

    /// How many words the set holds.
    pub fn len(&self) -> (n: usize)
        ensures
            self@.finite(),
            n == self@.len(),
            n == self.elements().len(),
    {
        proof {
            use_type_invariant(self);
            views(self.store.words@).unique_seq_to_set();
        }
        self.store.words.len()
    }

    /// Whether the set holds no word.
    pub fn is_empty(&self) -> (r: bool)
        ensures
            r == (self@ == Set::<Seq<Letter>>::empty()),
            r == (self.elements().len() == 0),
    {
        proof {
            self.lemma_elements();
        }
        self.store.words.len() == 0
    }

    /// The words of the set, each once, in the order in which they came.
    pub fn to_vec(&self) -> (words: Vec<Word<N>>)
        ensures
            views(words@) == self.elements(),
            views(words@).no_duplicates(),
            views(words@).to_set() == self@,
    {
        proof {
            use_type_invariant(self);
        }
        copy_of(self.store.words.as_slice())
    }

    /// The words of the set, each once, in the order in which they came.
    pub fn as_slice(&self) -> (words: &[Word<N>])
        ensures
            views(words@) == self.elements(),
            views(words@).no_duplicates(),
            views(words@).to_set() == self@,
    {
        proof {
            use_type_invariant(self);
        }
        self.store.words.as_slice()
    }
}

/// The same words in a vector of their own.
pub fn copy_of<const N: usize>(words: &[Word<N>]) -> (copy: Vec<Word<N>>)
    ensures
        copy@ == words@,
{
    let mut copy: Vec<Word<N>> = Vec::new();
    let mut i: usize = 0;
    while i < words.len()
        invariant
            i <= words@.len(),
            copy@ == words@.take(i as int),
        decreases words@.len() - i,
    {
        copy.push(words[i]);
        proof {
            assert(words@.take(i + 1) =~= words@.take(i as int).push(words@[i as int]));
        }
        i = i + 1;
    }
    proof {
        assert(words@.take(words@.len() as int) =~= words@);
    }
    copy
}

impl<const N: usize> Clone for WordSet<N> {
    fn clone(&self) -> (set: Self)
        ensures
            set@ == self@,
            set.elements() == self.elements(),
    {
        proof {
            use_type_invariant(self);
        }
        let words = copy_of(self.store.words.as_slice());
        let index = self.store.index.clone();
        Self { store: Store { words, index } }
    }
}

} // verus!
