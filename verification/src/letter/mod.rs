//! The alphabet of the game: twenty-six letters, read from and written as
//! ASCII characters without regard to case.

pub mod error;
pub mod letter_set;
pub mod letters;
pub mod ordering;

pub use error::ParseLetterError;
pub use letter_set::LetterSet;
pub use letters::Letters;

use vstd::prelude::*;

verus! {

/// One of the twenty-six letters `a` to `z`.
#[derive(Debug, Clone, Copy, Hash, PartialEq, Eq, Ord, Structural)]
pub enum Letter {
    A,
    B,
    C,
    D,
    E,
    F,
    G,
    H,
    I,
    J,
    K,
    L,
    M,
    N,
    O,
    P,
    Q,
    R,
    S,
    T,
    U,
    V,
    W,
    X,
    Y,
    Z,
}

/// The code point of `a`, the first lowercase letter.
pub open spec fn lower_a() -> int {
    97
}

/// The code point of `A`, the first uppercase letter.
pub open spec fn upper_a() -> int {
    65
}

/// What is added to an uppercase ASCII letter to give the lowercase one.
pub open spec fn case_gap() -> int {
    32
}

/// The lowercase form of an ASCII uppercase letter; any other character unchanged.
pub open spec fn spec_ascii_lowercase(ch: char) -> char {
    if upper_a() <= (ch as int) && (ch as int) < upper_a() + 26 {
        (ch as int + case_gap()) as char
    } else {
        ch
    }
}

impl Letter {
    /// The position of the letter in the alphabet, from 0 for `a` to 25 for `z`.
    pub open spec fn ordinal(self) -> int {
        match self {
            Letter::A => 0,
            Letter::B => 1,
            Letter::C => 2,
            Letter::D => 3,
            Letter::E => 4,
            Letter::F => 5,
            Letter::G => 6,
            Letter::H => 7,
            Letter::I => 8,
            Letter::J => 9,
            Letter::K => 10,
            Letter::L => 11,
            Letter::M => 12,
            Letter::N => 13,
            Letter::O => 14,
            Letter::P => 15,
            Letter::Q => 16,
            Letter::R => 17,
            Letter::S => 18,
            Letter::T => 19,
            Letter::U => 20,
            Letter::V => 21,
            Letter::W => 22,
            Letter::X => 23,
            Letter::Y => 24,
            Letter::Z => 25,
        }
    }

    /// The letter at position `n` of the alphabet; `z` for any `n` outside `0..25`.
    pub open spec fn nth(n: int) -> Letter {
        if n == 0 {
            Letter::A
        } else if n == 1 {
            Letter::B
        } else if n == 2 {
            Letter::C
        } else if n == 3 {
            Letter::D
        } else if n == 4 {
            Letter::E
        } else if n == 5 {
            Letter::F
        } else if n == 6 {
            Letter::G
        } else if n == 7 {
            Letter::H
        } else if n == 8 {
            Letter::I
        } else if n == 9 {
            Letter::J
        } else if n == 10 {
            Letter::K
        } else if n == 11 {
            Letter::L
        } else if n == 12 {
            Letter::M
        } else if n == 13 {
            Letter::N
        } else if n == 14 {
            Letter::O
        } else if n == 15 {
            Letter::P
        } else if n == 16 {
            Letter::Q
        } else if n == 17 {
            Letter::R
        } else if n == 18 {
            Letter::S
        } else if n == 19 {
            Letter::T
        } else if n == 20 {
            Letter::U
        } else if n == 21 {
            Letter::V
        } else if n == 22 {
            Letter::W
        } else if n == 23 {
            Letter::X
        } else if n == 24 {
            Letter::Y
        } else {
            Letter::Z
        }
    }

    /// The lowercase character that stands for the letter.
    pub open spec fn spec_to_char(self) -> char {
        (lower_a() + self.ordinal()) as char
    }

    /// The letter that a lowercase character stands for, if any.
    pub open spec fn spec_from_char_lowercase(ch: char) -> Option<Letter> {
        if lower_a() <= (ch as int) && (ch as int) < lower_a() + 26 {
            Some(Letter::nth(ch as int - lower_a()))
        } else {
            None
        }
    }

    /// The letter that a character of either case stands for, if any.
    pub open spec fn spec_from_char(ch: char) -> Option<Letter> {
        Letter::spec_from_char_lowercase(spec_ascii_lowercase(ch))
    }

    /// Every letter is found again from its position.
    pub proof fn lemma_nth_ordinal(self)
        ensures
            0 <= self.ordinal() < 26,
            Letter::nth(self.ordinal()) == self,
    {
    }

    /// Every position in `0..26` is the position of the letter it names.
    pub proof fn lemma_ordinal_nth(n: int)
        requires
            0 <= n < 26,
        ensures
            Letter::nth(n).ordinal() == n,
    {
    }

    /// Writing a letter and reading it back gives the letter, in either case.
    pub proof fn lemma_char_round_trip(self)
        ensures
            Letter::spec_from_char(self.spec_to_char()) == Some(self),
            Letter::spec_from_char_lowercase(self.spec_to_char()) == Some(self),
            Letter::spec_from_char((upper_a() + self.ordinal()) as char) == Some(self),
    {
        self.lemma_nth_ordinal();
    }

    /// The position of the letter in the alphabet.
    pub fn index(self) -> (i: u8)
        ensures
            i as int == self.ordinal(),
            i < 26,
    {
        match self {
            Letter::A => 0,
            Letter::B => 1,
            Letter::C => 2,
            Letter::D => 3,
            Letter::E => 4,
            Letter::F => 5,
            Letter::G => 6,
            Letter::H => 7,
            Letter::I => 8,
            Letter::J => 9,
            Letter::K => 10,
            Letter::L => 11,
            Letter::M => 12,
            Letter::N => 13,
            Letter::O => 14,
            Letter::P => 15,
            Letter::Q => 16,
            Letter::R => 17,
            Letter::S => 18,
            Letter::T => 19,
            Letter::U => 20,
            Letter::V => 21,
            Letter::W => 22,
            Letter::X => 23,
            Letter::Y => 24,
            Letter::Z => 25,
        }
    }

    /// The letter at a position of the alphabet, if the position is below 26.
    pub fn from_index(i: u8) -> (r: Option<Letter>)
        ensures
            r == if i < 26 {
                Some(Letter::nth(i as int))
            } else {
                None
            },
            r matches Some(letter) ==> letter.ordinal() == i as int,
    {
        match i {
            0 => Some(Letter::A),
            1 => Some(Letter::B),
            2 => Some(Letter::C),
            3 => Some(Letter::D),
            4 => Some(Letter::E),
            5 => Some(Letter::F),
            6 => Some(Letter::G),
            7 => Some(Letter::H),
            8 => Some(Letter::I),
            9 => Some(Letter::J),
            10 => Some(Letter::K),
            11 => Some(Letter::L),
            12 => Some(Letter::M),
            13 => Some(Letter::N),
            14 => Some(Letter::O),
            15 => Some(Letter::P),
            16 => Some(Letter::Q),
            17 => Some(Letter::R),
            18 => Some(Letter::S),
            19 => Some(Letter::T),
            20 => Some(Letter::U),
            21 => Some(Letter::V),
            22 => Some(Letter::W),
            23 => Some(Letter::X),
            24 => Some(Letter::Y),
            25 => Some(Letter::Z),
            _ => None,
        }
    }

    /// The lowercase character that stands for the letter.
    pub fn to_char(&self) -> (c: char)
        ensures
            c == self.spec_to_char(),
    {
        match self {
            Letter::A => 'a',
            Letter::B => 'b',
            Letter::C => 'c',
            Letter::D => 'd',
            Letter::E => 'e',
            Letter::F => 'f',
            Letter::G => 'g',
            Letter::H => 'h',
            Letter::I => 'i',
            Letter::J => 'j',
            Letter::K => 'k',
            Letter::L => 'l',
            Letter::M => 'm',
            Letter::N => 'n',
            Letter::O => 'o',
            Letter::P => 'p',
            Letter::Q => 'q',
            Letter::R => 'r',
            Letter::S => 's',
            Letter::T => 't',
            Letter::U => 'u',
            Letter::V => 'v',
            Letter::W => 'w',
            Letter::X => 'x',
            Letter::Y => 'y',
            Letter::Z => 'z',
        }
    }

    /// The same as [`Letter::to_char`].
    pub fn as_char(&self) -> (c: char)
        ensures
            c == self.spec_to_char(),
    {
        self.to_char()
    }

    /// Reads a lowercase character; an uppercase one is not accepted here.
    pub fn from_char_lowercase(ch: char) -> (r: Option<Self>)
        ensures
            r == Letter::spec_from_char_lowercase(ch),
    {
        match ch {
            'a' => Some(Letter::A),
            'b' => Some(Letter::B),
            'c' => Some(Letter::C),
            'd' => Some(Letter::D),
            'e' => Some(Letter::E),
            'f' => Some(Letter::F),
            'g' => Some(Letter::G),
            'h' => Some(Letter::H),
            'i' => Some(Letter::I),
            'j' => Some(Letter::J),
            'k' => Some(Letter::K),
            'l' => Some(Letter::L),
            'm' => Some(Letter::M),
            'n' => Some(Letter::N),
            'o' => Some(Letter::O),
            'p' => Some(Letter::P),
            'q' => Some(Letter::Q),
            'r' => Some(Letter::R),
            's' => Some(Letter::S),
            't' => Some(Letter::T),
            'u' => Some(Letter::U),
            'v' => Some(Letter::V),
            'w' => Some(Letter::W),
            'x' => Some(Letter::X),
            'y' => Some(Letter::Y),
            'z' => Some(Letter::Z),
            _ => None,
        }
    }

    /// Reads a character of either case; `None` for anything but `a` to `z` and `A` to `Z`.
    pub fn from_char(ch: char) -> (r: Option<Self>)
        ensures
            r == Letter::spec_from_char(ch),
    {
        Self::from_char_lowercase(ascii_lowercase(ch))
    }

    /// What [`Letter::try_from`] gives for a character.
    pub open spec fn spec_try_from(ch: char) -> Result<Letter, ParseLetterError> {
        match Letter::spec_from_char(ch) {
            Some(letter) => Ok(letter),
            None => Err(ParseLetterError::InvalidChar(ch)),
        }
    }

    /// Reads a string that holds exactly one character, a letter of either case.
    /// Any other string is refused with the error of the character parser.
    pub fn from_str(s: &str) -> (r: Result<Self, ParseLetterError>)
        ensures
            s@.len() == 1 ==> r == Letter::spec_try_from(s@[0]),
            s@.len() != 1 ==> r is Err && r->Err_0 is ParseChar,
    {
        match error::parse_single_char(s) {
            Ok(ch) => Self::try_from(ch),
            Err(err) => Err(ParseLetterError::parse_char(err)),
        }
    }
}

impl TryFrom<char> for Letter {
    type Error = ParseLetterError;

    /// Reads a character of either case, and names the character where it is no letter.
    fn try_from(value: char) -> (r: Result<Self, ParseLetterError>) {
        match Self::from_char(value) {
            Some(letter) => Ok(letter),
            None => Err(ParseLetterError::InvalidChar(value)),
        }
    }
}

impl vstd::std_specs::convert::TryFromSpecImpl<char> for Letter {
    open spec fn obeys_try_from_spec() -> bool {
        true
    }

    open spec fn try_from_spec(v: char) -> Result<Self, ParseLetterError> {
        Letter::spec_try_from(v)
    }
}

impl From<Letter> for char {
    /// The lowercase character that stands for the letter.
    fn from(value: Letter) -> (c: char) {
        value.to_char()
    }
}

impl vstd::std_specs::convert::FromSpecImpl<Letter> for char {
    open spec fn obeys_from_spec() -> bool {
        true
    }

    open spec fn from_spec(v: Letter) -> char {
        v.spec_to_char()
    }
}

/// The lowercase form of an uppercase ASCII letter; any other character unchanged.
pub fn ascii_lowercase(ch: char) -> (r: char)
    ensures
        r == spec_ascii_lowercase(ch),
{
    match ch {
        'A' => 'a',
        'B' => 'b',
        'C' => 'c',
        'D' => 'd',
        'E' => 'e',
        'F' => 'f',
        'G' => 'g',
        'H' => 'h',
        'I' => 'i',
        'J' => 'j',
        'K' => 'k',
        'L' => 'l',
        'M' => 'm',
        'N' => 'n',
        'O' => 'o',
        'P' => 'p',
        'Q' => 'q',
        'R' => 'r',
        'S' => 's',
        'T' => 't',
        'U' => 'u',
        'V' => 'v',
        'W' => 'w',
        'X' => 'x',
        'Y' => 'y',
        'Z' => 'z',
        other => other,
    }
}

/// The set of all twenty-six letters.
pub fn alphabet_set() -> (set: LetterSet)
    ensures
        set@ == Set::<Letter>::full(),
{
    let mut set = LetterSet::new();
    let mut i: u8 = 0;
    while i < 26
        invariant
            i <= 26,
            forall|l: Letter| set@.contains(l) <==> l.ordinal() < i,
        decreases 26 - i,
    {
        set.insert(Letter::from_index(i).unwrap());
        i = i + 1;
    }
    assert forall|l: Letter| set@.contains(l) by {
        l.lemma_nth_ordinal();
    }
    assert(set@ =~= Set::<Letter>::full());
    set
}

} // verus!
