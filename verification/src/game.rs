//! One game: a secret word, the words that may be guessed, and the guesses so far.

use crate::guess::guesses::{is_full, pushed};
use crate::guess::{all_correct, Guess, Guesses, LetterState};
use crate::letter::letters::parse_letters;
use crate::letter::Letter;
use crate::word::evaluation::evaluate;
use crate::word::list::WordsList;
use crate::word::{ParseWordError, Word};
use vstd::prelude::*;

verus! {

/// How far a game has come.
#[derive(Debug, Clone, Copy, PartialEq, Eq, Hash, Structural)]
pub enum GameState {
    /// Guesses are taken.
    InProgress,
    /// The secret was guessed. No further guess is taken.
    Won,
    /// The last guess that the limit allows was made and was not the secret.
    /// No further guess is taken.
    Lost,
}

/// Why a guess was not taken.
#[derive(Debug, Clone)]
pub enum GameError {
    /// The string is no word that may be guessed.
    InvalidWord(ParseWordError),
    /// The game is won or lost already.
    GameOver,
}

/// A game of words of `N` letters.
#[derive(Debug)]
pub struct Game<const N: usize> {
    answer: Word<N>,
    words_list: WordsList<N>,
    guesses: Guesses<N>,
    state: GameState,
}

/// What a game is made of.
pub struct GameView {
    /// The secret word.
    pub secret: Seq<Letter>,
    /// The words that may be guessed.
    pub guessable: Set<Seq<Letter>>,
    /// The most guesses that are taken, if there is a limit.
    pub limit: Option<usize>,
    /// The marked guesses so far, oldest first.
    pub history: Seq<Seq<(Letter, LetterState)>>,
    /// How far the game has come.
    pub state: GameState,
}

/// Each guess of a record by its letters and marks.
pub open spec fn marks<const N: usize>(guesses: Seq<Guess<N>>) -> Seq<Seq<(Letter, LetterState)>> {
    guesses.map_values(|guess: Guess<N>| guess@)
}

/// The state after a guess with these marks, where `count` guesses are then on record.
pub open spec fn state_after(
    limit: Option<usize>,
    count: nat,
    marked: Seq<(Letter, LetterState)>,
) -> GameState {
    if all_correct(marked) {
        GameState::Won
    } else if is_full(limit, count) {
        GameState::Lost
    } else {
        GameState::InProgress
    }
}

/// The game after a guess with these marks was made in a game in progress.
pub open spec fn after_guess(game: GameView, marked: Seq<(Letter, LetterState)>) -> GameView {
    let history = pushed(game.limit, game.history, marked);
    GameView {
        secret: game.secret,
        guessable: game.guessable,
        limit: game.limit,
        history,
        state: state_after(game.limit, history.len(), marked),
    }
}

/// What offering the string `s` to a game gives: the game after it, and the
/// marks of the guess where it was taken.
pub open spec fn offer(game: GameView, s: Seq<char>, n: nat) -> (
    GameView,
    Option<Seq<(Letter, LetterState)>>,
) {
    if game.state != GameState::InProgress {
        (game, None)
    } else {
        match parse_letters(s, n) {
            Ok(letters) => if game.guessable.contains(letters) {
                let marked = evaluate(game.secret, letters);
                (after_guess(game, marked), Some(marked))
            } else {
                (game, None)
            },
            Err(_) => (game, None),
        }
    }
}

/// Whether `error` is the reason for which the string `s` is not taken as a guess.
pub open spec fn refuses(game: GameView, s: Seq<char>, n: nat, error: GameError) -> bool {
    if game.state != GameState::InProgress {
        error is GameOver
    } else {
        match parse_letters(s, n) {
            Ok(letters) => !game.guessable.contains(letters) && (error matches GameError::InvalidWord(
                ParseWordError::NotInList { letters: refused },
            ) && refused@ == letters),
            Err(reason) => error matches GameError::InvalidWord(ParseWordError::ParseLetters(e))
                && e == reason,
        }
    }
}

/// A game that is won or lost takes no guess: whatever is offered, nothing changes.
pub proof fn lemma_over_is_final(game: GameView, s: Seq<char>, n: nat)
    requires
        game.state != GameState::InProgress,
    ensures
        offer(game, s, n) == (game, None::<Seq<(Letter, LetterState)>>),
{
}

/// A game under a limit never has more guesses on record than the limit, and
/// with a guess that is not the secret it is lost exactly when the limit is reached.
pub proof fn lemma_limit_holds(game: GameView, s: Seq<char>, n: nat, max: usize)
    requires
        game.limit == Some(max),
        game.history.len() <= max,
    ensures
        offer(game, s, n).0.history.len() <= max,
        offer(game, s, n).0.limit == game.limit,
        offer(game, s, n).1 matches Some(marked) ==> (offer(game, s, n).0.state == if all_correct(
            marked,
        ) {
            GameState::Won
        } else if offer(game, s, n).0.history.len() == max {
            GameState::Lost
        } else {
            GameState::InProgress
        }),
{
}

impl<const N: usize> View for Game<N> {
    type V = GameView;

    closed spec fn view(&self) -> GameView {
        GameView {
            secret: self.answer@,
            guessable: self.words_list.parts().0,
            limit: self.guesses.limit(),
            history: marks(self.guesses@),
            state: self.state,
        }
    }
}

impl<const N: usize> Game<N> {
    /// A game in progress with the given secret and no guess made yet. At
    /// most `max_guesses` guesses are taken, or any number if it is `None`.
    pub fn new(answer: Word<N>, words_list: WordsList<N>, max_guesses: Option<usize>) -> (game: Self)
        ensures
            game@ == (GameView {
                secret: answer@,
                guessable: words_list.parts().0,
                limit: max_guesses,
                history: Seq::empty(),
                state: GameState::InProgress,
            }),
    {
        let game = Self {
            answer,
            words_list,
            guesses: Guesses::new(max_guesses),
            state: GameState::InProgress,
        };
        proof {
            assert(marks(game.guesses@) =~= Seq::empty());
        }
        game
    }

    /// Offers a guess. In a game in progress a word that may be guessed is
    /// marked against the secret and put on record; the game is won if it is the
    /// secret, and lost if it is not and the limit is reached. Anything else is
    /// refused, and so is every guess once the game is won or lost; what is
    /// refused changes nothing.
    pub fn guess_str(&mut self, s: &str) -> (r: Result<Guess<N>, GameError>)
        ensures
            final(self)@ == offer(old(self)@, s@, N as nat).0,
            match r {
                Ok(guess) => offer(old(self)@, s@, N as nat).1 == Some(guess@),
                Err(error) => offer(old(self)@, s@, N as nat).1 is None && refuses(
                    old(self)@,
                    s@,
                    N as nat,
                    error,
                ),
            },
    {
        if self.state != GameState::InProgress {
            return Err(GameError::GameOver);
        }
        let guess = match self.answer.guess_str(&self.words_list, s) {
            Ok(guess) => guess,
            Err(error) => {
                return Err(GameError::InvalidWord(error));
            },
        };
        let ghost before = self.guesses@;
        self.guesses.push(guess);
        proof {
            assert(marks(self.guesses@) =~= pushed(self.guesses.limit(), marks(before), guess@));
        }
        if guess.is_correct() {
            self.state = GameState::Won;
        } else if self.guesses.max_reached() {
            self.state = GameState::Lost;
        }
        Ok(guess)
    }

    /// How far the game has come.
    pub fn state(&self) -> (state: GameState)
        ensures
            state == self@.state,
    {
        self.state
    }

    /// The number of guesses on record.
    pub fn count(&self) -> (n: usize)
        ensures
            n == self@.history.len(),
            self@.limit matches Some(max) ==> n <= max,
    {
        self.guesses.count()
    }

    /// The guesses on record, oldest first.
    pub fn guesses(&self) -> (guesses: &Guesses<N>)
        ensures
            marks(guesses@) == self@.history,
            guesses.limit() == self@.limit,
    {
        &self.guesses
    }

    /// The secret word.
    pub fn answer(&self) -> (word: Word<N>)
        ensures
            word@ == self@.secret,
    {
        self.answer
    }

    /// The words of the game.
    pub fn words_list(&self) -> (list: &WordsList<N>)
        ensures
            list.parts().0 == self@.guessable,
    {
        &self.words_list
    }
}

impl From<ParseWordError> for GameError {
    fn from(value: ParseWordError) -> (r: Self) {
        Self::InvalidWord(value)
    }
}

impl vstd::std_specs::convert::FromSpecImpl<ParseWordError> for GameError {
    open spec fn obeys_from_spec() -> bool {
        true
    }

    open spec fn from_spec(v: ParseWordError) -> Self {
        GameError::InvalidWord(v)
    }
}

} // verus!
