//! The words of a game: those that may be guessed, and those that may be the secret.

pub mod answers;
pub mod collection;
pub mod error;
pub mod guessable;
pub mod word_set;

pub use answers::Answers;
pub use collection::Collection;
pub use error::ParseWordsListError;
pub use guessable::Guessable;
pub use word_set::WordSet;

use crate::letter::Letter;
use crate::word::words::parse_list;
use crate::word::Word;
use guessable::{excludes, includes};
use vstd::prelude::*;

verus! {

/// The words of a game. Every word that may be the secret may also be guessed.
#[derive(Debug)]
pub struct WordsList<const N: usize> {
    guessable: Guessable<N>,
    answers: Answers<N>,
}

/// What the list of `guessable` and `answers` is made of: the words that may
/// be guessed, the secrets among them, and the secrets in their order.
pub open spec fn joined(guessable: Set<Seq<Letter>>, answers: Seq<Seq<Letter>>) -> (
    Set<Seq<Letter>>,
    Seq<Seq<Letter>>,
) {
    (guessable.union(answers.to_set()), answers)
}

/// Whether the two can be made into a list: the words that may be guessed hold
/// all of the secrets or none of them.
pub open spec fn can_join(guessable: Set<Seq<Letter>>, answers: Seq<Seq<Letter>>) -> bool {
    includes(guessable, answers) || excludes(guessable, answers)
}

/// Whether `r` is what making a list of the two gives.
pub open spec fn is_list_of<const N: usize>(
    r: Result<WordsList<N>, ParseWordsListError>,
    guessable: Set<Seq<Letter>>,
    answers: Seq<Seq<Letter>>,
) -> bool {
    match r {
        Ok(list) => can_join(guessable, answers) && list.parts() == joined(guessable, answers),
        Err(error) => !can_join(guessable, answers) && error
            == ParseWordsListError::InvariantViolation,
    }
}

/// Whether `r` is what reading the two texts as a list gives. The text of the
/// words that may be guessed is read first, and its error comes first; then
/// the text of the secrets; then the two are made into a list.
pub open spec fn is_list_of_texts<const N: usize>(
    r: Result<WordsList<N>, ParseWordsListError>,
    guessable_text: Seq<char>,
    answers_text: Seq<char>,
) -> bool {
    match text_words(guessable_text, N as nat) {
        Ok(guessable) => match text_words(answers_text, N as nat) {
            Ok(answers) => is_list_of(r, guessable.to_set(), answers),
            Err(reason) => r matches Err(error) && error == reason,
        },
        Err(reason) => r matches Err(error) && error == reason,
    }
}

/// The words of a text, which must hold at least one.
pub open spec fn text_words(text: Seq<char>, n: nat) -> Result<
    Seq<Seq<Letter>>,
    ParseWordsListError,
> {
    match parse_list(text, n) {
        Ok(words) => if words.len() == 0 {
            Err(ParseWordsListError::EmptyInput)
        } else {
            Ok(words)
        },
        Err(reason) => Err(reason),
    }
}

/// A set that holds some words holds them still when they are added to it.
pub proof fn lemma_join_including(guessable: Set<Seq<Letter>>, answers: Seq<Seq<Letter>>)
    requires
        includes(guessable, answers),
    ensures
        joined(guessable, answers).0 == guessable,
{
    assert forall|word: Seq<Letter>| answers.to_set().contains(word) implies guessable.contains(
        word,
    ) by {
        let i = choose|i: int| 0 <= i < answers.len() && answers[i] == word;
        assert(guessable.contains(answers[i]));
    }
    assert(guessable.union(answers.to_set()) =~= guessable);
}

/// However a list is made, every word that may be the secret may be guessed.
pub proof fn lemma_joined_includes(guessable: Set<Seq<Letter>>, answers: Seq<Seq<Letter>>)
    ensures
        includes(joined(guessable, answers).0, joined(guessable, answers).1),
{
    assert forall|i: int| 0 <= i < answers.len() implies joined(guessable, answers).0.contains(
        #[trigger] answers[i],
    ) by {
        assert(answers.to_set().contains(answers[i]));
    }
}

impl<const N: usize> WordsList<N> {
    #[verifier::type_invariant]
    spec fn answers_are_guessable(self) -> bool {
        includes(self.guessable@, self.answers@)
    }

    /// The words that may be guessed.
    pub closed spec fn spec_guessable(self) -> Guessable<N> {
        self.guessable
    }

    /// The words that may be the secret.
    pub closed spec fn spec_answers(self) -> Answers<N> {
        self.answers
    }

    /// The words that may be guessed, and those that may be the secret in their order.
    pub open spec fn parts(self) -> (Set<Seq<Letter>>, Seq<Seq<Letter>>) {
        (self.spec_guessable()@, self.spec_answers()@)
    }

    /// The list of words that may be guessed and of secrets that are none of
    /// them: the secrets are added to the words that may be guessed.
    pub fn new_exclusive(guessable: Guessable<N>, answers: Answers<N>) -> (list: Self)
        requires
            excludes(guessable@, answers@),
        ensures
            list.parts() == joined(guessable@, answers@),
            includes(list.parts().0, list.parts().1),
    {
        let ghost before = guessable@;
        let mut guessable = guessable;
        answers.append_to_guessable(&mut guessable);
        proof {
            lemma_joined_includes(before, answers@);
        }
        Self { guessable, answers }
    }

    /// The list of words that may be guessed and of secrets that are all among them.
    pub fn new_inclusive(guessable: Guessable<N>, answers: Answers<N>) -> (list: Self)
        requires
            includes(guessable@, answers@),
        ensures
            list.parts() == joined(guessable@, answers@),
            list.parts() == (guessable@, answers@),
            includes(list.parts().0, list.parts().1),
    {
        proof {
            lemma_join_including(guessable@, answers@);
        }
        Self { guessable, answers }
    }

    /// The list in which every word that may be guessed may be the secret.
    pub fn from_guessable(guessable: Guessable<N>) -> (list: Self)
        ensures
            list.parts() == (guessable@, guessable.elements()),
            list.parts().1.to_set() == guessable@,
            includes(list.parts().0, list.parts().1),
    {
        let answers = Answers::from_guessable(&guessable);
        proof {
            assert forall|i: int| 0 <= i < answers@.len() implies guessable@.contains(
                #[trigger] answers@[i],
            ) by {
                assert(answers@.to_set().contains(answers@[i]));
            }
        }
        Self::new_inclusive(guessable, answers)
    }

    /// The list of the two, where the words that may be guessed hold all of
    /// the secrets or none of them.
    pub fn new(guessable: Guessable<N>, answers: Answers<N>) -> (list: Self)
        requires
            can_join(guessable@, answers@),
        ensures
            list.parts() == joined(guessable@, answers@),
            includes(list.parts().0, list.parts().1),
    {
        if guessable.includes_answers(&answers) {
            Self::new_inclusive(guessable, answers)
        } else {
            Self::new_exclusive(guessable, answers)
        }
    }

    /// The list of the two, or the error where the words that may be guessed
    /// hold some of the secrets and not others.
    pub fn try_new(guessable: Guessable<N>, answers: Answers<N>) -> (r: Result<
        Self,
        ParseWordsListError,
    >)
        ensures
            is_list_of(r, guessable@, answers@),
            r matches Ok(list) ==> includes(list.parts().0, list.parts().1),
    {
        if guessable.includes_answers(&answers) {
            Ok(Self::new_inclusive(guessable, answers))
        } else if guessable.excludes_answers(&answers) {
            Ok(Self::new_exclusive(guessable, answers))
        } else {
            Err(ParseWordsListError::InvariantViolation)
        }
    }

    /// Reads a list from the text of the words that may be guessed and the
    /// text of the words that may be the secret, each with one word on a line.
    pub fn from_text(guessable_text: &str, answers_text: &str) -> (r: Result<
        Self,
        ParseWordsListError,
    >)
        ensures
            is_list_of_texts(r, guessable_text@, answers_text@),
            r matches Ok(list) ==> includes(list.parts().0, list.parts().1),
    {
        let guessable = match Guessable::<N>::from_str(guessable_text) {
            Ok(guessable) => guessable,
            Err(error) => {
                return Err(error);
            },
        };
        let answers = match Answers::<N>::from_str(answers_text) {
            Ok(answers) => answers,
            Err(error) => {
                return Err(error);
            },
        };
        Self::try_new(guessable, answers)
    }

    /// The words that may be guessed.
    pub fn guessable(&self) -> (r: &Guessable<N>)
        ensures
            *r == self.spec_guessable(),
    {
        &self.guessable
    }

    /// The words that may be the secret. Each of them may be guessed.
    pub fn answers(&self) -> (r: &Answers<N>)
        ensures
            *r == self.spec_answers(),
            includes(self.parts().0, self.parts().1),
    {
        proof {
            use_type_invariant(self);
        }
        &self.answers
    }

    /// Whether the word may be guessed.
    pub fn contains(&self, word: Word<N>) -> (r: bool)
        ensures
            r == self.parts().0.contains(word@),
    {
        self.guessable.contains(word)
    }

    /// Draws a secret with the given generator. The word may also be guessed.
    pub fn random_answer_with<R: rand::Rng>(&self, rng: &mut R) -> (word: Word<N>)
        ensures
            self.parts().1.contains(word@),
            self.parts().0.contains(word@),
    {
        proof {
            use_type_invariant(self);
        }
        self.answers.random_with(rng)
    }

    /// Draws a secret with the generator of the current thread. The word may
    /// also be guessed.
    pub fn random_answer(&self) -> (word: Word<N>)
        ensures
            self.parts().1.contains(word@),
            self.parts().0.contains(word@),
    {
        proof {
            use_type_invariant(self);
        }
        self.answers.random()
    }
}

impl<const N: usize> Clone for WordsList<N> {
    fn clone(&self) -> (list: Self)
        ensures
            list.parts() == self.parts(),
    {
        proof {
            use_type_invariant(self);
        }
        Self { guessable: self.guessable.clone(), answers: self.answers.clone() }
    }
}

} // verus!
