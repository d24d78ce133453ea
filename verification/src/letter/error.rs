//! Why a character or a string is not a letter.

use vstd::prelude::*;

verus! {

/// The error of the standard library's parser for a single character.
#[verifier::external_type_specification]
#[verifier::external_body]
pub struct ExParseCharError(std::char::ParseCharError);

/// The standard library's `Clone` for that error. What is claimed of it, and not
/// proved: the clone is the same value.
pub assume_specification[ <std::char::ParseCharError as Clone>::clone ](
    error: &std::char::ParseCharError,
) -> (r: std::char::ParseCharError)
    ensures
        r == *error,
;

/// Why a character or a string could not be read as a letter.
#[derive(Debug, Clone)]
pub enum ParseLetterError {
    /// The character is none of `a` to `z` in either case.
    InvalidChar(char),
    /// The string does not hold exactly one character.
    ParseChar(std::char::ParseCharError),
}

impl ParseLetterError {
    pub fn invalid_char(value: char) -> (r: Self)
        ensures
            r == ParseLetterError::InvalidChar(value),
    {
        Self::InvalidChar(value)
    }

    pub fn parse_char(error: std::char::ParseCharError) -> (r: Self)
        ensures
            r == ParseLetterError::ParseChar(error),
    {
        Self::ParseChar(error)
    }
}

/// Calls the standard library's `str::parse::<char>`. What is claimed of it, and
/// not proved: a string of exactly one character gives that character, and any
/// other string (an empty one, or one of several characters) gives an error.
#[verifier::external_body]
pub(crate) fn parse_single_char(s: &str) -> (r: Result<char, std::char::ParseCharError>)
    ensures
        s@.len() == 1 ==> r is Ok && r->Ok_0 == s@[0],
        s@.len() != 1 ==> r is Err,
{
    s.parse::<char>()
}

impl From<std::char::ParseCharError> for ParseLetterError {
    fn from(value: std::char::ParseCharError) -> (r: Self) {
        Self::ParseChar(value)
    }
}

impl vstd::std_specs::convert::FromSpecImpl<std::char::ParseCharError> for ParseLetterError {
    open spec fn obeys_from_spec() -> bool {
        true
    }

    open spec fn from_spec(v: std::char::ParseCharError) -> Self {
        ParseLetterError::ParseChar(v)
    }
}

} // verus!
