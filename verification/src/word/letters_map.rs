//! How often each letter occurs, kept in a hash map from the letter's position
//! in the alphabet to its count.

use crate::letter::Letter;
use std::collections::HashMap;
use vstd::multiset::Multiset;
use vstd::prelude::*;

verus! {

/// A count for each letter. A letter that is not counted has no entry, so every
/// entry holds at least 1.
#[derive(Debug)]
pub struct LettersMap {
    hash_map: HashMap<u8, usize>,
}

/// The key under which a letter is counted.
spec fn key_of(letter: Letter) -> u8 {
    letter.ordinal() as u8
}

/// The counts that the entries of a hash map stand for.
spec fn counts(entries: Map<u8, usize>) -> Map<Letter, nat> {
    Map::new(
        |letter: Letter| entries.contains_key(key_of(letter)),
        |letter: Letter| entries[key_of(letter)] as nat,
    )
}

/// There are only finitely many letters.
pub proof fn lemma_letters_finite()
    ensures
        Set::<Letter>::full().finite(),
{
    let all = set![Letter::A, Letter::B, Letter::C, Letter::D, Letter::E, Letter::F, Letter::G, Letter::H, Letter::I, Letter::J, Letter::K, Letter::L, Letter::M, Letter::N, Letter::O, Letter::P, Letter::Q, Letter::R, Letter::S, Letter::T, Letter::U, Letter::V, Letter::W, Letter::X, Letter::Y, Letter::Z];
    assert forall|letter: Letter| all.contains(letter) by {
        letter.lemma_nth_ordinal();
    }
    assert(all =~= Set::<Letter>::full());
}

/// The multiset of a hash map counts each letter as its entry says, and a letter
/// without an entry not at all.
proof fn lemma_counts(entries: Map<u8, usize>)
    ensures
        forall|letter: Letter| #[trigger]
            Multiset::from_map(counts(entries)).count(letter) == if entries.contains_key(
                key_of(letter),
            ) {
                entries[key_of(letter)] as nat
            } else {
                0
            },
{
    lemma_letters_finite();
    vstd::set_lib::lemma_len_subset(counts(entries).dom(), Set::<Letter>::full());
}

/// Different letters are counted under different keys.
proof fn lemma_keys_differ(a: Letter, b: Letter)
    ensures
        key_of(a) == key_of(b) <==> a == b,
        key_of(a) < 26,
{
    a.lemma_nth_ordinal();
    b.lemma_nth_ordinal();
}

impl View for LettersMap {
    type V = Multiset<Letter>;

    closed spec fn view(&self) -> Multiset<Letter> {
        Multiset::from_map(counts(self.hash_map@))
    }
}

impl LettersMap {
    #[verifier::type_invariant]
    spec fn no_empty_entry(self) -> bool {
        forall|key: u8| self.hash_map@.contains_key(key) ==> self.hash_map@[key] >= 1
    }

    /// The map in which no letter is counted.
    pub fn new() -> (map: Self)
        ensures
            map@ == Multiset::<Letter>::empty(),
    {
        let map = Self { hash_map: HashMap::new() };
        proof {
            lemma_counts(map.hash_map@);
            assert(map@ =~= Multiset::<Letter>::empty());
        }
        map
    }

    /// The count of each letter of `letters`.
    pub fn from_iter(letters: Vec<Letter>) -> (map: Self)
        ensures
            map@ == letters@.to_multiset(),
    {
        let mut map = Self::new();
        let mut i: usize = 0;
        proof {
            assert(letters@.take(0) =~= Seq::<Letter>::empty());
            letters@.take(0).to_multiset_ensures();
            assert(letters@.take(0).to_multiset() =~= Multiset::<Letter>::empty());
        }
        while i < letters.len()
            invariant
                i <= letters@.len(),
                map@ == letters@.take(i as int).to_multiset(),
            decreases letters@.len() - i,
        {
            let letter = letters[i];
            proof {
                let prefix = letters@.take(i as int);
                prefix.to_multiset_ensures();
                assert(map@.count(letter) <= map@.len());
                assert(letters@.take(i + 1) =~= prefix.push(letter));
            }
            map.increment(letter);
            i = i + 1;
        }
        proof {
            assert(letters@.take(letters@.len() as int) =~= letters@);
        }
        map
    }

    /// How often the letter is counted.
    pub fn count_letter(&self, letter: Letter) -> (n: usize)
        ensures
            n == self@.count(letter),
    {
        proof {
            lemma_counts(self.hash_map@);
            lemma_keys_differ(letter, letter);
        }
        match self.hash_map.get(&letter.index()) {
            Some(count) => *count,
            None => 0,
        }
    }

    /// Whether the letter is counted at least once.
    pub fn contains_letter(&self, letter: Letter) -> (r: bool)
        ensures
            r == (self@.count(letter) > 0),
    {
        proof {
            use_type_invariant(self);
            lemma_counts(self.hash_map@);
            lemma_keys_differ(letter, letter);
        }
        self.hash_map.contains_key(&letter.index())
    }

    /// Sets the count of the letter to 1, whatever it was.
    pub fn insert(&mut self, letter: Letter)
        ensures
            final(self)@ == old(self)@.update(letter, 1),
    {
        proof {
            use_type_invariant(&*self);
        }
        let mut entries: HashMap<u8, usize> = HashMap::new();
        core::mem::swap(&mut self.hash_map, &mut entries);
        let ghost before = entries@;
        entries.insert(letter.index(), 1);
        proof {
            lemma_counts(before);
            lemma_counts(entries@);
            assert forall|other: Letter|
                Multiset::from_map(counts(entries@)).count(other) == Multiset::from_map(
                    counts(before),
                ).update(letter, 1).count(other) by {
                lemma_keys_differ(letter, other);
                vstd::multiset::lemma_update_same(Multiset::from_map(counts(before)), letter, 1);
                if other != letter {
                    vstd::multiset::lemma_update_different(
                        Multiset::from_map(counts(before)),
                        letter,
                        1,
                        other,
                    );
                }
            }
            assert(Multiset::from_map(counts(entries@)) =~= Multiset::from_map(
                counts(before),
            ).update(letter, 1));
        }
        core::mem::swap(&mut self.hash_map, &mut entries);
    }

    /// Counts the letter once more.
    pub fn increment(&mut self, letter: Letter)
        requires
            old(self)@.count(letter) < usize::MAX,
        ensures
            final(self)@ == old(self)@.insert(letter),
    {
        proof {
            use_type_invariant(&*self);
        }
        let mut entries: HashMap<u8, usize> = HashMap::new();
        core::mem::swap(&mut self.hash_map, &mut entries);
        let ghost before = entries@;
        let key = letter.index();
        proof {
            lemma_counts(before);
            lemma_keys_differ(letter, letter);
        }
        let next: usize = match entries.get(&key) {
            Some(count) => *count + 1,
            None => 1,
        };
        entries.insert(key, next);
        proof {
            lemma_counts(entries@);
            assert forall|other: Letter|
                Multiset::from_map(counts(entries@)).count(other) == Multiset::from_map(
                    counts(before),
                ).insert(letter).count(other) by {
                lemma_keys_differ(letter, other);
            }
            assert(Multiset::from_map(counts(entries@)) =~= Multiset::from_map(
                counts(before),
            ).insert(letter));
        }
        core::mem::swap(&mut self.hash_map, &mut entries);
    }

    /// Counts the letter once less, and returns the count that is left; `None`,
    /// and no change, if the letter was not counted.
    pub fn decrement(&mut self, letter: Letter) -> (left: Option<usize>)
        ensures
            final(self)@ == old(self)@.remove(letter),
            left == if old(self)@.count(letter) > 0 {
                Some((old(self)@.count(letter) - 1) as usize)
            } else {
                None
            },
    {
        proof {
            use_type_invariant(&*self);
        }
        let mut entries: HashMap<u8, usize> = HashMap::new();
        core::mem::swap(&mut self.hash_map, &mut entries);
        let ghost before = entries@;
        let key = letter.index();
        proof {
            lemma_counts(before);
            lemma_keys_differ(letter, letter);
        }
        let left = match entries.remove(&key) {
            Some(count) => {
                if count > 1 {
                    entries.insert(key, count - 1);
                }
                Some(count - 1)
            },
            None => None,
        };
        proof {
            lemma_counts(entries@);
            assert forall|other: Letter|
                Multiset::from_map(counts(entries@)).count(other) == Multiset::from_map(
                    counts(before),
                ).remove(letter).count(other) by {
                lemma_keys_differ(letter, other);
            }
            assert(Multiset::from_map(counts(entries@)) =~= Multiset::from_map(
                counts(before),
            ).remove(letter));
        }
        core::mem::swap(&mut self.hash_map, &mut entries);
        left
    }
}

impl Clone for LettersMap {
    fn clone(&self) -> (map: Self)
        ensures
            map@ == self@,
    {
        proof {
            use_type_invariant(self);
        }
        Self { hash_map: self.hash_map.clone() }
    }
}

impl Default for LettersMap {
    fn default() -> (map: Self)
        ensures
            map@ == Multiset::<Letter>::empty(),
    {
        Self::new()
    }
}

} // verus!
