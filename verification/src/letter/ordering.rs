//! The order of the letters: that of the alphabet.

use super::Letter;
use core::cmp::Ordering;
use vstd::prelude::*;
use vstd::std_specs::cmp::PartialOrdSpecImpl;

verus! {

/// How two letters stand to each other in the alphabet.
pub open spec fn alphabetical(a: Letter, b: Letter) -> Ordering {
    if a.ordinal() < b.ordinal() {
        Ordering::Less
    } else if a.ordinal() > b.ordinal() {
        Ordering::Greater
    } else {
        Ordering::Equal
    }
}

/// Only a letter itself stands level with it in the alphabet.
pub proof fn lemma_alphabetical_equal(a: Letter, b: Letter)
    ensures
        alphabetical(a, b) == Ordering::Equal <==> a == b,
{
    a.lemma_nth_ordinal();
    b.lemma_nth_ordinal();
}

impl PartialOrd for Letter {
    fn partial_cmp(&self, other: &Self) -> (r: Option<Ordering>) {
        let a = self.index();
        let b = other.index();
        if a < b {
            Some(Ordering::Less)
        } else if a > b {
            Some(Ordering::Greater)
        } else {
            Some(Ordering::Equal)
        }
    }
}

impl PartialOrdSpecImpl for Letter {
    open spec fn obeys_partial_cmp_spec() -> bool {
        true
    }

    open spec fn partial_cmp_spec(&self, other: &Self) -> Option<Ordering> {
        Some(alphabetical(*self, *other))
    }
}

} // verus!
