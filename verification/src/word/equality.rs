//! When two words are equal: when they hold the same letters in the same order.

use super::{spelling, Word};
use crate::letter::letters::Letters;
use vstd::prelude::*;
use vstd::std_specs::cmp::PartialEqSpecImpl;

verus! {

impl<const N: usize> PartialEq for Word<N> {
    fn eq(&self, other: &Self) -> (r: bool) {
        proof {
            self.lemma_len();
            other.lemma_len();
        }
        let mut i: usize = 0;
        while i < N
            invariant
                i <= N,
                self@.len() == N,
                other@.len() == N,
                forall|k: int| 0 <= k < i ==> self@[k] == other@[k],
            decreases N - i,
        {
            if self.letter_at(i) != other.letter_at(i) {
                return false;
            }
            i = i + 1;
        }
        proof {
            assert(self@ =~= other@);
        }
        true
    }
}

impl<const N: usize> PartialEqSpecImpl for Word<N> {
    open spec fn obeys_eq_spec() -> bool {
        true
    }

    open spec fn eq_spec(&self, other: &Self) -> bool {
        self@ == other@
    }
}

impl<const N: usize> PartialEq<str> for Word<N> {
    fn eq(&self, other: &str) -> (r: bool) {
        self.eq_str(other)
    }
}

impl<const N: usize> PartialEqSpecImpl<str> for Word<N> {
    open spec fn obeys_eq_spec() -> bool {
        true
    }

    open spec fn eq_spec(&self, other: &str) -> bool {
        spelling(self@) == other@
    }
}

impl<'s, const N: usize> PartialEq<&'s str> for Word<N> {
    fn eq(&self, other: &&'s str) -> (r: bool) {
        self.eq_str(*other)
    }
}

impl<'s, const N: usize> PartialEqSpecImpl<&'s str> for Word<N> {
    open spec fn obeys_eq_spec() -> bool {
        true
    }

    open spec fn eq_spec(&self, other: &&'s str) -> bool {
        spelling(self@) == other@
    }
}

impl<const N: usize> PartialEq<Letters<N>> for Word<N> {
    fn eq(&self, other: &Letters<N>) -> (r: bool) {
        self.eq_letters(other)
    }
}

impl<const N: usize> PartialEqSpecImpl<Letters<N>> for Word<N> {
    open spec fn obeys_eq_spec() -> bool {
        true
    }

    open spec fn eq_spec(&self, other: &Letters<N>) -> bool {
        self@ == other@
    }
}

impl<const N: usize> From<Word<N>> for Letters<N> {
    fn from(value: Word<N>) -> (letters: Self) {
        value.letters()
    }
}

impl<const N: usize> vstd::std_specs::convert::FromSpecImpl<Word<N>> for Letters<N> {
    open spec fn obeys_from_spec() -> bool {
        true
    }

    open spec fn from_spec(v: Word<N>) -> Self {
        v.spec_letters()
    }
}

} // verus!
