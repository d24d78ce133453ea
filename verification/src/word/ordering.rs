//! The order of words of one length: that of a dictionary.

use super::{differ_at, lemma_differ_at_unique, Word};
use crate::letter::ordering::alphabetical;
use crate::letter::Letter;
use core::cmp::Ordering;
use vstd::prelude::*;
use vstd::std_specs::cmp::PartialOrdSpecImpl;

verus! {

/// How two rows of as many letters stand to each other: as their letters do at
/// the first position at which they differ, and level if they differ nowhere.
pub open spec fn dictionary_order(a: Seq<Letter>, b: Seq<Letter>) -> Ordering {
    if exists|i: int| differ_at(a, b, i) {
        let i = choose|i: int| differ_at(a, b, i);
        alphabetical(a[i], b[i])
    } else {
        Ordering::Equal
    }
}

impl<const N: usize> PartialOrd for Word<N> {
    fn partial_cmp(&self, other: &Self) -> (r: Option<Ordering>) {
        proof {
            self.lemma_len();
            other.lemma_len();
        }
        let mut i: usize = 0;
        while i < N
            invariant
                i <= N,
                self@.len() == N,
                other@.len() == N,
                forall|k: int| 0 <= k < i ==> self@[k] == other@[k],
            decreases N - i,
        {
            let a = self.letter_at(i);
            let b = other.letter_at(i);
            if a != b {
                proof {
                    lemma_differ_at_unique(self@, other@, i);
                }
                return a.partial_cmp(&b);
            }
            i = i + 1;
        }
        Some(Ordering::Equal)
    }
}

impl<const N: usize> PartialOrdSpecImpl for Word<N> {
    open spec fn obeys_partial_cmp_spec() -> bool {
        true
    }

    open spec fn partial_cmp_spec(&self, other: &Self) -> Option<Ordering> {
        Some(dictionary_order(self@, other@))
    }
}

} // verus!
