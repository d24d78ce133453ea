//! The guesses made in one game, in their order, up to a limit.

use super::{all_correct, uses_letter, Guess};
use crate::letter::{alphabet_set, Letter, LetterSet};
use vstd::prelude::*;

verus! {

/// The guesses made so far, oldest first, and the most that may be made.
/// Guesses are only ever added, and never more of them than the limit.
#[derive(Debug)]
pub struct Guesses<const N: usize> {
    max: Option<usize>,
    vec: Vec<Guess<N>>,
}

/// The record of a classic game: words of five letters.
pub type Classic = Guesses<5>;

/// Whether a record of `count` guesses with the limit `max` takes no more.
pub open spec fn is_full(max: Option<usize>, count: nat) -> bool {
    max == Some(count as usize)
}

/// The record after `guess` was offered to a record that holds `entries` under the limit `max`.
pub open spec fn pushed<T>(max: Option<usize>, entries: Seq<T>, guess: T) -> Seq<T> {
    if is_full(max, entries.len()) {
        entries
    } else {
        entries.push(guess)
    }
}

/// The record after each of `offered` was offered in turn.
pub open spec fn pushed_all<T>(max: Option<usize>, entries: Seq<T>, offered: Seq<T>) -> Seq<T>
    decreases offered.len(),
{
    if offered.len() == 0 {
        entries
    } else {
        pushed(max, pushed_all(max, entries, offered.drop_last()), offered.last())
    }
}

/// How many of the guesses offered in turn are taken.
pub open spec fn accepted<T>(max: Option<usize>, entries: Seq<T>, offered: Seq<T>) -> nat
    decreases offered.len(),
{
    if offered.len() == 0 {
        0
    } else {
        accepted(max, entries, offered.drop_last()) + if is_full(
            max,
            pushed_all(max, entries, offered.drop_last()).len(),
        ) {
            0nat
        } else {
            1nat
        }
    }
}

/// A record grows by one with every guess that it takes and not otherwise,
/// so a record that was empty holds as many guesses as were taken; and under a
/// limit no more guesses are taken than the limit leaves room for.
pub proof fn lemma_count_is_accepted<T>(max: Option<usize>, entries: Seq<T>, offered: Seq<T>)
    ensures
        pushed_all(max, entries, offered).len() == entries.len() + accepted(max, entries, offered),
        max matches Some(limit) ==> (entries.len() <= limit ==> entries.len() + accepted(
            max,
            entries,
            offered,
        ) <= limit),
    decreases offered.len(),
{
    if offered.len() > 0 {
        lemma_count_is_accepted(max, entries, offered.drop_last());
    }
}

/// Under a limit, a record that starts within it stays within it whatever is
/// offered, and while it is below the limit it holds exactly what was offered.
pub proof fn lemma_pushes_bounded<T>(max: usize, entries: Seq<T>, offered: Seq<T>)
    requires
        entries.len() <= max,
    ensures
        pushed_all(Some(max), entries, offered).len() <= max,
        pushed_all(Some(max), entries, offered).len() == if entries.len() + offered.len() <= max {
            entries.len() + offered.len()
        } else {
            max as nat
        },
        entries.len() + offered.len() <= max ==> pushed_all(Some(max), entries, offered) == entries
            + offered,
    decreases offered.len(),
{
    if offered.len() > 0 {
        lemma_pushes_bounded(max, entries, offered.drop_last());
        if entries.len() + offered.len() <= max {
            assert(entries + offered =~= (entries + offered.drop_last()).push(offered.last()));
        }
    } else {
        assert(entries + offered =~= entries);
    }
}

/// Without a limit every guess offered is taken, as long as their number fits the machine.
pub proof fn lemma_pushes_unbounded<T>(entries: Seq<T>, offered: Seq<T>)
    requires
        entries.len() + offered.len() <= usize::MAX,
    ensures
        pushed_all(None, entries, offered) == entries + offered,
    decreases offered.len(),
{
    if offered.len() > 0 {
        lemma_pushes_unbounded(entries, offered.drop_last());
        assert(entries + offered =~= (entries + offered.drop_last()).push(offered.last()));
    } else {
        assert(entries + offered =~= entries);
    }
}

/// Whether some guess of the record holds the letter.
pub open spec fn any_uses<const N: usize>(guesses: Seq<Guess<N>>, letter: Letter) -> bool {
    exists|i: int| 0 <= i < guesses.len() && uses_letter(#[trigger] guesses[i]@, letter)
}

impl<const N: usize> View for Guesses<N> {
    type V = Seq<Guess<N>>;

    closed spec fn view(&self) -> Seq<Guess<N>> {
        self.vec@
    }
}

impl<const N: usize> Guesses<N> {
    #[verifier::type_invariant]
    spec fn within_limit(self) -> bool {
        self.max matches Some(max) ==> self.vec@.len() <= max
    }

    /// The limit that the record was made with.
    pub closed spec fn limit(self) -> Option<usize> {
        self.max
    }

    /// An empty record that takes at most `max` guesses, or any number if `max` is `None`.
    pub fn new(max: Option<usize>) -> (r: Self)
        ensures
            r@ == Seq::<Guess<N>>::empty(),
            r.limit() == max,
    {
        Self { max, vec: Vec::new() }
    }

    pub fn max(&self) -> (r: Option<usize>)
        ensures
            r == self.limit(),
    {
        self.max
    }

    /// The guesses, oldest first.
    pub fn to_vec(self) -> (r: Vec<Guess<N>>)
        ensures
            r@ == self@,
    {
        self.vec
    }

    /// Whether the latest guess found the secret. `false` while there is no guess.
    pub fn latest_is_correct(&self) -> (r: bool)
        ensures
            r == (self@.len() > 0 && all_correct(self@.last()@)),
    {
        match self.latest() {
            Some(guess) => guess.is_correct(),
            None => false,
        }
    }

    /// The guess made last, if any was made.
    pub fn latest(&self) -> (r: Option<Guess<N>>)
        ensures
            r == if self@.len() > 0 {
                Some(self@.last())
            } else {
                None
            },
    {
        let n = self.vec.len();
        if n == 0 {
            None
        } else {
            Some(self.vec[n - 1])
        }
    }

    /// An empty record for the classic game: six guesses of five letters.
    pub fn classic() -> (r: Classic)
        ensures
            r@ == Seq::<Guess<5>>::empty(),
            r.limit() == Some(6usize),
    {
        Guesses::<5>::new(Some(6))
    }

    /// The number of guesses taken so far.
    pub fn count(&self) -> (r: usize)
        ensures
            r == self@.len(),
            self.limit() matches Some(max) ==> r <= max,
    {
        proof {
            use_type_invariant(self);
        }
        self.vec.len()
    }

    /// Whether the record holds as many guesses as its limit allows.
    pub fn max_reached(&self) -> (r: bool)
        ensures
            r == is_full(self.limit(), self@.len()),
    {
        Some(self.count()) == self.max
    }

    /// Offers a guess. It is taken, and `true` returned, unless the limit is
    /// reached: then nothing changes and `false` is returned.
    pub fn push(&mut self, guess: Guess<N>) -> (r: bool)
        ensures
            r == !is_full(old(self).limit(), old(self)@.len()),
            final(self)@ == pushed(old(self).limit(), old(self)@, guess),
            final(self).limit() == old(self).limit(),
            final(self).limit() matches Some(max) ==> final(self)@.len() <= max,
    {
        proof {
            use_type_invariant(&*self);
        }
        if self.max_reached() {
            false
        } else {
            let mut vec: Vec<Guess<N>> = Vec::new();
            core::mem::swap(&mut self.vec, &mut vec);
            vec.push(guess);
            core::mem::swap(&mut self.vec, &mut vec);
            true
        }
    }

    /// The guesses, oldest first.
    pub fn as_slice(&self) -> (r: &[Guess<N>])
        ensures
            r@ == self@,
    {
        self.vec.as_slice()
    }

    /// The guesses, oldest first.
    pub fn iter(&self) -> (r: Vec<Guess<N>>)
        ensures
            r@ == self@,
    {
        let mut out: Vec<Guess<N>> = Vec::new();
        let mut i: usize = 0;
        while i < self.vec.len()
            invariant
                i <= self.vec@.len(),
                out@ == self.vec@.take(i as int),
            decreases self.vec@.len() - i,
        {
            out.push(self.vec[i]);
            proof {
                assert(self.vec@.take(i + 1) =~= self.vec@.take(i as int).push(self.vec@[i as int]));
            }
            i = i + 1;
        }
        proof {
            assert(self.vec@.take(self.vec@.len() as int) =~= self.vec@);
        }
        out
    }

    /// The letters of the alphabet that no guess so far has used.
    pub fn unused_letters(&self) -> (set: LetterSet)
        ensures
            forall|letter: Letter| set@.contains(letter) <==> !any_uses(self@, letter),
    {
        let mut set = alphabet_set();
        let mut i: usize = 0;
        while i < self.vec.len()
            invariant
                i <= self.vec@.len(),
                forall|letter: Letter|
                    set@.contains(letter) <==> !any_uses(self.vec@.take(i as int), letter),
            decreases self.vec@.len() - i,
        {
            let guess = self.vec[i];
            let ghost before = set@;
            guess.unused_letters_with(&mut set);
            proof {
                let shorter = self.vec@.take(i as int);
                let longer = self.vec@.take(i + 1);
                assert forall|letter: Letter| set@.contains(letter) <==> !any_uses(
                    longer,
                    letter,
                ) by {
                    if any_uses(longer, letter) {
                        let k = choose|k: int|
                            0 <= k < longer.len() && uses_letter(#[trigger] longer[k]@, letter);
                        if k < i {
                            assert(uses_letter(shorter[k]@, letter));
                        }
                    }
                    if any_uses(shorter, letter) {
                        let k = choose|k: int|
                            0 <= k < shorter.len() && uses_letter(#[trigger] shorter[k]@, letter);
                        assert(uses_letter(longer[k]@, letter));
                    }
                    if uses_letter(guess@, letter) {
                        assert(uses_letter(longer[i as int]@, letter));
                    }
                }
            }
            i = i + 1;
        }
        proof {
            assert(self.vec@.take(self.vec@.len() as int) =~= self.vec@);
        }
        set
    }
}

impl<const N: usize> Clone for Guesses<N> {
    fn clone(&self) -> (r: Self)
        ensures
            r@ == self@,
            r.limit() == self.limit(),
    {
        proof {
            use_type_invariant(self);
        }
        Self { max: self.max, vec: self.iter() }
    }
}

impl Default for Guesses<5> {
    fn default() -> (r: Self)
        ensures
            r@ == Seq::<Guess<5>>::empty(),
            r.limit() == Some(6usize),
    {
        Self::new(Some(6))
    }
}

} // verus!
