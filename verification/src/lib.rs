//! A word-guessing game: words of a fixed length over the letters `a` to `z`,
//! the rule that marks each letter of a guess against a secret word, lists of
//! the words that may be guessed and of those that may be the secret, and the
//! record of guesses that decides whether a game is won or lost.

pub mod array;
pub mod classic;
pub mod game;
pub mod guess;
pub mod letter;
pub mod word;

pub use array::Array;
pub use game::Game;
pub use guess::Guess;
pub use guess::Guesses;
pub use guess::LetterState;
pub use letter::Letter;
pub use letter::Letters;
pub use word::list::WordsList;
pub use word::Word;
