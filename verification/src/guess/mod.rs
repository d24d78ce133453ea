//! A guess that has been marked: each letter with what the secret tells of it.

pub mod guesses;
pub mod letter_state;

pub use guesses::Guesses;
pub use letter_state::LetterState;

use crate::array::Array;
use crate::letter::{alphabet_set, Letter, LetterSet};
use vstd::prelude::*;

verus! {

/// The letters of a guessed word, in their order, each with its mark.
#[derive(Copy, Clone, Debug, PartialEq, Eq)]
pub struct Guess<const N: usize> {
    array: Array<(Letter, LetterState), N>,
}

impl<const N: usize> View for Guess<N> {
    type V = Seq<(Letter, LetterState)>;

    closed spec fn view(&self) -> Seq<(Letter, LetterState)> {
        self.array@
    }
}

/// The letters, each marked as not present.
pub open spec fn unmarked(letters: Seq<Letter>) -> Seq<(Letter, LetterState)> {
    letters.map_values(|letter: Letter| (letter, LetterState::NotPresent))
}

/// The letters of a marked guess.
pub open spec fn letters_in(guess: Seq<(Letter, LetterState)>) -> Seq<Letter> {
    guess.map_values(|pair: (Letter, LetterState)| pair.0)
}

/// The marks of a marked guess.
pub open spec fn states_in(guess: Seq<(Letter, LetterState)>) -> Seq<LetterState> {
    guess.map_values(|pair: (Letter, LetterState)| pair.1)
}

/// Whether every letter of the guess is marked correct.
pub open spec fn all_correct(guess: Seq<(Letter, LetterState)>) -> bool {
    forall|i: int| 0 <= i < guess.len() ==> (#[trigger] guess[i]).1 == LetterState::Correct
}

/// Whether the guess holds the letter at some position.
pub open spec fn uses_letter(guess: Seq<(Letter, LetterState)>, letter: Letter) -> bool {
    exists|i: int| 0 <= i < guess.len() && (#[trigger] guess[i]).0 == letter
}

impl<const N: usize> Guess<N> {
    /// A guess has exactly `N` positions.
    pub proof fn lemma_len(self)
        ensures
            self@.len() == N,
    {
        self.array.lemma_len();
    }

    /// The guess of the given letters with no letter marked yet.
    pub fn none_present(letters: Array<Letter, N>) -> (r: Self)
        ensures
            r@ == unmarked(letters@),
    {
        proof {
            letters.lemma_len();
        }
        let mut pairs: Vec<(Letter, LetterState)> = Vec::new();
        let mut i: usize = 0;
        while i < N
            invariant
                i <= N,
                letters@.len() == N,
                pairs@ == unmarked(letters@.take(i as int)),
            decreases N - i,
        {
            let letter = *letters.get(i).unwrap();
            pairs.push(LetterState::not_present(letter));
            proof {
                assert(letters@.take(i + 1) =~= letters@.take(i as int).push(letter));
                assert(unmarked(letters@.take(i + 1)) =~= unmarked(letters@.take(i as int)).push(
                    (letter, LetterState::NotPresent),
                ));
            }
            i = i + 1;
        }
        proof {
            assert(letters@.take(N as int) =~= letters@);
        }
        Self { array: Array::try_from(pairs).unwrap() }
    }

    /// The letters of the guess in their order.
    pub fn letters(&self) -> (r: Vec<Letter>)
        ensures
            r@ == letters_in(self@),
    {
        proof {
            self.lemma_len();
        }
        let mut out: Vec<Letter> = Vec::new();
        let mut i: usize = 0;
        while i < N
            invariant
                i <= N,
                self@.len() == N,
                out@ == letters_in(self@.take(i as int)),
            decreases N - i,
        {
            let pair = *self.array.get(i).unwrap();
            out.push(pair.0);
            proof {
                assert(self@.take(i + 1) =~= self@.take(i as int).push(pair));
                assert(letters_in(self@.take(i + 1)) =~= letters_in(self@.take(i as int)).push(
                    pair.0,
                ));
            }
            i = i + 1;
        }
        proof {
            assert(self@.take(N as int) =~= self@);
        }
        out
    }

    /// The marks of the guess in the order of its letters.
    pub fn states(&self) -> (r: Vec<LetterState>)
        ensures
            r@ == states_in(self@),
    {
        proof {
            self.lemma_len();
        }
        let mut out: Vec<LetterState> = Vec::new();
        let mut i: usize = 0;
        while i < N
            invariant
                i <= N,
                self@.len() == N,
                out@ == states_in(self@.take(i as int)),
            decreases N - i,
        {
            let pair = *self.array.get(i).unwrap();
            out.push(pair.1);
            proof {
                assert(self@.take(i + 1) =~= self@.take(i as int).push(pair));
                assert(states_in(self@.take(i + 1)) =~= states_in(self@.take(i as int)).push(
                    pair.1,
                ));
            }
            i = i + 1;
        }
        proof {
            assert(self@.take(N as int) =~= self@);
        }
        out
    }

    /// The letters with their marks, in their order.
    pub fn to_vec(&self) -> (r: Vec<(Letter, LetterState)>)
        ensures
            r@ == self@,
    {
        self.array.to_vec()
    }

    /// Whether every letter is marked correct: the guess is the secret.
    pub fn is_correct(self) -> (r: bool)
        ensures
            r == all_correct(self@),
    {
        proof {
            self.lemma_len();
        }
        let mut i: usize = 0;
        while i < N
            invariant
                i <= N,
                self@.len() == N,
                all_correct(self@.take(i as int)),
            decreases N - i,
        {
            let pair = *self.array.get(i).unwrap();
            if !pair.1.is_correct() {
                return false;
            }
            proof {
                assert forall|k: int| 0 <= k < i + 1 implies (#[trigger] self@.take(i + 1)[k]).1
                    == LetterState::Correct by {
                    if k < i {
                        assert(self@.take(i as int)[k] == self@[k]);
                    }
                }
            }
            i = i + 1;
        }
        proof {
            assert(self@.take(N as int) =~= self@);
        }
        true
    }

    /// The letter and mark at `index`, if `index` is below `N`.
    pub fn get(self, index: usize) -> (r: Option<(Letter, LetterState)>)
        ensures
            r == if index < N {
                Some(self@[index as int])
            } else {
                None
            },
    {
        match self.array.get(index) {
            Some(pair) => Some(*pair),
            None => None,
        }
    }

    /// The letter at `index` with its mark, the mark to be changed in place,
    /// if `index` is below `N`.
    pub fn get_mut(&mut self, index: usize) -> (r: Option<(Letter, &mut LetterState)>)
        ensures
            match r {
                Some((letter, state)) => index < N && (letter, *state) == old(self)@[index as int]
                    && final(self)@ == old(self)@.update(index as int, (letter, *final(state))),
                None => index >= N && final(self)@ == old(self)@,
            },
    {
        match self.array.get_mut(index) {
            Some(pair) => Some((pair.0, &mut pair.1)),
            None => None,
        }
    }

    /// Changes the mark at `index` and nothing else.
    pub fn set_state(&mut self, index: usize, state: LetterState)
        requires
            index < N,
        ensures
            final(self)@ == old(self)@.update(index as int, (old(self)@[index as int].0, state)),
    {
        let letter = self.array.get(index).unwrap().0;
        self.array.set(index, (letter, state));
    }

    /// The letters of the alphabet that the guess does not use.
    pub fn unused_letters(self) -> (set: LetterSet)
        ensures
            forall|letter: Letter| set@.contains(letter) <==> !uses_letter(self@, letter),
    {
        let mut set = alphabet_set();
        self.unused_letters_with(&mut set);
        set
    }

    /// Takes the letters that the guess uses out of `set`.
    pub fn unused_letters_with(self, set: &mut LetterSet)
        ensures
            forall|letter: Letter|
                final(set)@.contains(letter) <==> old(set)@.contains(letter) && !uses_letter(
                    self@,
                    letter,
                ),
    {
        proof {
            self.lemma_len();
        }
        let mut i: usize = 0;
        while i < N
            invariant
                i <= N,
                self@.len() == N,
                forall|letter: Letter|
                    set@.contains(letter) <==> old(set)@.contains(letter) && !uses_letter(
                        self@.take(i as int),
                        letter,
                    ),
            decreases N - i,
        {
            let pair = *self.array.get(i).unwrap();
            let ghost before = set@;
            set.remove(&pair.0);
            proof {
                assert forall|letter: Letter|
                    set@.contains(letter) <==> old(set)@.contains(letter) && !uses_letter(
                        self@.take(i + 1),
                        letter,
                    ) by {
                    let longer = self@.take(i + 1);
                    let shorter = self@.take(i as int);
                    if uses_letter(longer, letter) {
                        let k = choose|k: int| 0 <= k < longer.len() && longer[k].0 == letter;
                        if k < i {
                            assert(shorter[k].0 == letter);
                        }
                    }
                    if uses_letter(shorter, letter) {
                        let k = choose|k: int| 0 <= k < shorter.len() && shorter[k].0 == letter;
                        assert(longer[k].0 == letter);
                    }
                    if letter == pair.0 {
                        assert(longer[i as int].0 == letter);
                    }
                }
            }
            i = i + 1;
        }
        proof {
            assert(self@.take(N as int) =~= self@);
        }
    }
}

/// A letter with its mark.
#[derive(Clone, Copy, Debug, Hash, PartialEq, Eq, Structural)]
pub struct LetterWithState {
    pub letter: Letter,
    pub state: LetterState,
}

impl LetterWithState {
    pub fn new(letter: Letter, state: LetterState) -> (r: Self)
        ensures
            r.letter == letter,
            r.state == state,
    {
        Self { letter, state }
    }

    /// The letter, marked as not present.
    pub fn default(letter: Letter) -> (r: Self)
        ensures
            r.letter == letter,
            r.state == LetterState::NotPresent,
    {
        Self::new(letter, LetterState::default())
    }

    pub fn letter(self) -> (r: Letter)
        ensures
            r == self.letter,
    {
        self.letter
    }

    pub fn state(self) -> (r: LetterState)
        ensures
            r == self.state,
    {
        self.state
    }

    /// Changes the mark and keeps the letter.
    pub fn set_state(&mut self, new: LetterState)
        ensures
            final(self).letter == old(self).letter,
            final(self).state == new,
    {
        self.state = new
    }

    pub fn is_correct(self) -> (r: bool)
        ensures
            r == (self.state == LetterState::Correct),
    {
        self.state().is_correct()
    }
}

} // verus!
