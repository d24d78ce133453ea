//! A set of letters, kept as one flag for each letter of the alphabet.

use super::Letter;
use vstd::prelude::*;

verus! {

/// A set of letters. Its letters are handed out in alphabetical order.
#[derive(Debug, Clone, PartialEq, Eq, Hash)]
pub struct LetterSet {
    present: [bool; 26],
}

impl View for LetterSet {
    type V = Set<Letter>;

    closed spec fn view(&self) -> Set<Letter> {
        Set::new(|l: Letter| self.present@[l.ordinal()])
    }
}

/// The letters of `s` that stand before position `n` of the alphabet.
pub open spec fn below(s: Set<Letter>, n: int) -> Set<Letter> {
    Set::new(|l: Letter| s.contains(l) && l.ordinal() < n)
}

/// Whether `v` holds the letters of `s` and no others, each once, in alphabetical order.
pub open spec fn lists_in_order(v: Seq<Letter>, s: Set<Letter>) -> bool {
    &&& forall|l: Letter| s.contains(l) <==> v.contains(l)
    &&& forall|i: int, j: int| 0 <= i < j < v.len() ==> v[i].ordinal() < v[j].ordinal()
}

impl LetterSet {
    /// The empty set.
    pub fn new() -> (set: Self)
        ensures
            set@ == Set::<Letter>::empty(),
    {
        let set = Self { present: [false; 26] };
        assert(set@ =~= Set::<Letter>::empty());
        set
    }

    /// Whether the letter is in the set.
    pub fn contains(&self, letter: &Letter) -> (r: bool)
        ensures
            r == self@.contains(*letter),
    {
        self.present[letter.index() as usize]
    }

    /// Adds a letter. Returns whether it was new to the set.
    pub fn insert(&mut self, letter: Letter) -> (r: bool)
        ensures
            final(self)@ == old(self)@.insert(letter),
            r == !old(self)@.contains(letter),
    {
        let i = letter.index() as usize;
        let was = self.present[i];
        self.present[i] = true;
        assert forall|l: Letter| final(self)@.contains(l) <==> old(self)@.insert(letter).contains(
            l,
        ) by {
            l.lemma_nth_ordinal();
            letter.lemma_nth_ordinal();
        }
        assert(final(self)@ =~= old(self)@.insert(letter));
        !was
    }

    /// Takes a letter out. Returns whether it was in the set.
    pub fn remove(&mut self, letter: &Letter) -> (r: bool)
        ensures
            final(self)@ == old(self)@.remove(*letter),
            r == old(self)@.contains(*letter),
    {
        let i = letter.index() as usize;
        let was = self.present[i];
        self.present[i] = false;
        assert forall|l: Letter| final(self)@.contains(l) <==> old(self)@.remove(*letter).contains(
            l,
        ) by {
            l.lemma_nth_ordinal();
            letter.lemma_nth_ordinal();
        }
        assert(final(self)@ =~= old(self)@.remove(*letter));
        was
    }

    /// The letters of the set in alphabetical order.
    pub fn iter(&self) -> (v: Vec<Letter>)
        ensures
            lists_in_order(v@, self@),
            v@.len() == self@.len(),
            self@.finite(),
    {
        let mut v: Vec<Letter> = Vec::new();
        let mut i: u8 = 0;
        proof {
            assert(below(self@, 0) =~= Set::<Letter>::empty());
        }
        while i < 26
            invariant
                i <= 26,
                lists_in_order(v@, below(self@, i as int)),
                forall|k: int| 0 <= k < v.len() ==> v[k].ordinal() < i,
                below(self@, i as int).finite(),
                below(self@, i as int).len() == v@.len(),
            decreases 26 - i,
        {
            let letter = Letter::from_index(i).unwrap();
            let ghost before = below(self@, i as int);
            let ghost prev = v@;
            if self.contains(&letter) {
                v.push(letter);
                proof {
                    assert(below(self@, i + 1) =~= before.insert(letter)) by {
                        assert forall|l: Letter|
                            below(self@, i + 1).contains(l) <==> before.insert(letter).contains(
                                l,
                            ) by {
                            l.lemma_nth_ordinal();
                        }
                    }
                    assert forall|l: Letter| before.insert(letter).contains(l) <==> v@.contains(
                        l,
                    ) by {
                        if before.contains(l) {
                            let k = choose|k: int| 0 <= k < prev.len() && prev[k] == l;
                            assert(v@[k] == l);
                        }
                        if l == letter {
                            assert(v@[prev.len() as int] == l);
                        }
                        if v@.contains(l) {
                            let k = choose|k: int| 0 <= k < v@.len() && v@[k] == l;
                            if k < prev.len() {
                                assert(prev[k] == l);
                            }
                        }
                    }
                }
            } else {
                proof {
                    assert(below(self@, i + 1) =~= before) by {
                        assert forall|l: Letter| below(self@, i + 1).contains(l) <==> before.contains(
                            l,
                        ) by {
                            l.lemma_nth_ordinal();
                        }
                    }
                }
            }
            i = i + 1;
        }
        proof {
            assert(below(self@, 26) =~= self@) by {
                assert forall|l: Letter| below(self@, 26).contains(l) <==> self@.contains(l) by {
                    l.lemma_nth_ordinal();
                }
            }
        }
        v
    }

    /// How many letters the set holds.
    pub fn len(&self) -> (n: usize)
        ensures
            self@.finite(),
            n == self@.len(),
    {
        self.iter().len()
    }

    /// Whether the set holds no letter.
    pub fn is_empty(&self) -> (r: bool)
        ensures
            r == (self@ == Set::<Letter>::empty()),
    {
        let v = self.iter();
        proof {
            if v@.len() == 0 {
                assert(self@ =~= Set::<Letter>::empty());
            } else {
                assert(v@.contains(v@[0]));
            }
        }
        v.len() == 0
    }
}

impl Default for LetterSet {
    fn default() -> (set: Self)
        ensures
            set@ == Set::<Letter>::empty(),
    {
        Self::new()
    }
}

} // verus!
