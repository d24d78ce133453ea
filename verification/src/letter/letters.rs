//! A row of letters of fixed length, read from a string.

use super::error::ParseLetterError;
use super::Letter;
use crate::array::{exactly, Array, LengthError};
use vstd::prelude::*;

verus! {

/// Exactly `N` letters in a row.
pub type Letters<const N: usize> = Array<Letter, N>;

/// Why a string could not be read as a row of `N` letters.
#[derive(Debug, Clone)]
pub enum ParseLettersError {
    /// A character that is no letter.
    ParseLetter(ParseLetterError),
    /// A number of letters other than `N`.
    WrongLength(LengthError),
}

impl From<ParseLetterError> for ParseLettersError {
    fn from(value: ParseLetterError) -> (r: Self) {
        Self::ParseLetter(value)
    }
}

impl vstd::std_specs::convert::FromSpecImpl<ParseLetterError> for ParseLettersError {
    open spec fn obeys_from_spec() -> bool {
        true
    }

    open spec fn from_spec(v: ParseLetterError) -> Self {
        ParseLettersError::ParseLetter(v)
    }
}

impl From<LengthError> for ParseLettersError {
    fn from(value: LengthError) -> (r: Self) {
        Self::WrongLength(value)
    }
}

impl vstd::std_specs::convert::FromSpecImpl<LengthError> for ParseLettersError {
    open spec fn obeys_from_spec() -> bool {
        true
    }

    open spec fn from_spec(v: LengthError) -> Self {
        ParseLettersError::WrongLength(v)
    }
}

/// Whether every character of `s` is a letter.
pub open spec fn all_letters(s: Seq<char>) -> bool {
    forall|i: int| 0 <= i < s.len() ==> Letter::spec_from_char(#[trigger] s[i]) is Some
}

/// Whether position `i` of `s` holds the first character that is no letter.
pub open spec fn first_invalid_at(s: Seq<char>, i: int) -> bool {
    &&& 0 <= i < s.len()
    &&& Letter::spec_from_char(s[i]) is None
    &&& all_letters(s.take(i))
}

/// The letters that the characters of `s` stand for.
pub open spec fn letters_of(s: Seq<char>) -> Seq<Letter> {
    s.map_values(|ch: char| Letter::spec_from_char(ch).unwrap())
}

/// What reading `s` as a row of `n` letters gives: the first character that is
/// no letter, if there is one; else the two lengths, if `s` has not `n`
/// characters; else the letters.
pub open spec fn parse_letters(s: Seq<char>, n: nat) -> Result<Seq<Letter>, ParseLettersError> {
    if !all_letters(s) {
        let i = choose|i: int| first_invalid_at(s, i);
        Err(ParseLettersError::ParseLetter(ParseLetterError::InvalidChar(s[i])))
    } else {
        match exactly(letters_of(s), n) {
            Ok(letters) => Ok(letters),
            Err(error) => Err(ParseLettersError::WrongLength(error)),
        }
    }
}

/// Whether `r` is what [`parse_letters`] gives, the letters taken by their view.
pub open spec fn is_parse_of<const N: usize>(
    r: Result<Letters<N>, ParseLettersError>,
    s: Seq<char>,
) -> bool {
    match r {
        Ok(letters) => parse_letters(s, N as nat) == Ok::<Seq<Letter>, ParseLettersError>(letters@),
        Err(error) => parse_letters(s, N as nat) == Err::<Seq<Letter>, ParseLettersError>(error),
    }
}

/// At most one position holds the first character that is no letter.
pub proof fn lemma_first_invalid_unique(s: Seq<char>, i: int, j: int)
    requires
        first_invalid_at(s, i),
        first_invalid_at(s, j),
    ensures
        i == j,
{
    if i < j {
        assert(s.take(j)[i] == s[i]);
    }
    if j < i {
        assert(s.take(i)[j] == s[j]);
    }
}

/// The characters of a string, in their order.
pub fn chars_of(s: &str) -> (chars: Vec<char>)
    ensures
        chars@ == s@,
{
    let mut chars: Vec<char> = Vec::new();
    for ch in it: s.chars()
        invariant
            it.seq() == s@,
            chars@ == s@.take(it.index() as int),
    {
        proof {
            assert(s@.take(it.index() + 1) =~= s@.take(it.index() as int).push(ch));
        }
        chars.push(ch);
    }
    proof {
        assert(s@.take(s@.len() as int) =~= s@);
    }
    chars
}

impl<const N: usize> Array<Letter, N> {
    /// Reads exactly `N` characters, each a letter of either case.
    pub fn from_chars(chars: &[char]) -> (r: Result<Self, ParseLettersError>)
        ensures
            is_parse_of(r, chars@),
    {
        let mut letters: Vec<Letter> = Vec::new();
        let mut i: usize = 0;
        while i < chars.len()
            invariant
                i <= chars@.len(),
                all_letters(chars@.take(i as int)),
                letters@ == letters_of(chars@.take(i as int)),
            decreases chars@.len() - i,
        {
            let ch = chars[i];
            match Letter::try_from(ch) {
                Ok(letter) => {
                    letters.push(letter);
                    proof {
                        assert(chars@.take(i + 1) =~= chars@.take(i as int).push(ch));
                        assert(letters_of(chars@.take(i + 1)) =~= letters_of(
                            chars@.take(i as int),
                        ).push(letter));
                    }
                },
                Err(error) => {
                    proof {
                        assert(first_invalid_at(chars@, i as int));
                        let k = choose|k: int| first_invalid_at(chars@, k);
                        lemma_first_invalid_unique(chars@, i as int, k);
                    }
                    return Err(ParseLettersError::ParseLetter(error));
                },
            }
            i = i + 1;
        }
        proof {
            assert(chars@.take(chars@.len() as int) =~= chars@);
        }
        match Array::try_from(letters) {
            Ok(array) => Ok(array),
            Err(error) => Err(ParseLettersError::WrongLength(error)),
        }
    }

    /// Reads a string of exactly `N` letters of either case.
    pub fn from_str(s: &str) -> (r: Result<Self, ParseLettersError>)
        ensures
            is_parse_of(r, s@),
    {
        let chars = chars_of(s);
        Self::from_chars(chars.as_slice())
    }
}

} // verus!
