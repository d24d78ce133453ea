use kwordle::game::{Game, GameError, GameState};
use kwordle::guess::LetterState;
use kwordle::word::list::WordsList;
use kwordle::word::{ParseWordError, Word};

fn word(s: &str) -> Word<5> {
    Word::from_str_unchecked(s).unwrap()
}

fn list() -> WordsList<5> {
    WordsList::from_text(
        "amber\narbor\nhandy\nsonar\ntummy\nmummy\nlevel\n",
        "amber\nmummy\n",
    )
    .unwrap()
}

#[test]
fn a_game_is_lost_after_the_last_guess() {
    let mut game = Game::new(word("amber"), list(), Some(6));
    assert_eq!(game.state(), GameState::InProgress);
    for (i, guess) in ["arbor", "handy", "sonar", "tummy", "mummy", "level"]
        .into_iter()
        .enumerate()
    {
        assert_eq!(game.state(), GameState::InProgress);
        let marked = game.guess_str(guess).unwrap();
        assert!(!marked.is_correct());
        assert_eq!(game.count(), i + 1);
    }
    assert_eq!(game.state(), GameState::Lost);
    assert_eq!(game.count(), 6);
    assert!(matches!(game.guess_str("amber"), Err(GameError::GameOver)));
    assert_eq!(game.count(), 6);
    assert_eq!(game.state(), GameState::Lost);
    assert!(matches!(game.guess_str("?"), Err(GameError::GameOver)));
    assert_eq!(game.count(), 6);
}

#[test]
fn a_game_is_won_by_the_secret() {
    let mut game = Game::new(word("amber"), list(), Some(6));
    let first = game.guess_str("arbor").unwrap();
    assert_eq!(
        first.states(),
        vec![
            LetterState::Correct,
            LetterState::NotPresent,
            LetterState::Correct,
            LetterState::NotPresent,
            LetterState::Correct
        ]
    );
    assert_eq!(game.state(), GameState::InProgress);
    let second = game.guess_str("AMBER").unwrap();
    assert!(second.is_correct());
    assert_eq!(game.state(), GameState::Won);
    assert_eq!(game.count(), 2);
    assert!(matches!(game.guess_str("sonar"), Err(GameError::GameOver)));
    assert_eq!(game.count(), 2);
    assert_eq!(game.state(), GameState::Won);
    assert!(game.guesses().latest_is_correct());
}

#[test]
fn the_last_guess_can_still_win() {
    let mut game = Game::new(word("amber"), list(), Some(2));
    game.guess_str("sonar").unwrap();
    game.guess_str("amber").unwrap();
    assert_eq!(game.state(), GameState::Won);
}

#[test]
fn a_refused_guess_changes_nothing() {
    let mut game = Game::new(word("amber"), list(), Some(6));
    game.guess_str("sonar").unwrap();
    assert!(matches!(
        game.guess_str("zzzzz"),
        Err(GameError::InvalidWord(ParseWordError::NotInList { .. }))
    ));
    assert!(matches!(
        game.guess_str("amb"),
        Err(GameError::InvalidWord(ParseWordError::ParseLetters(_)))
    ));
    assert!(matches!(
        game.guess_str("amb3r"),
        Err(GameError::InvalidWord(ParseWordError::ParseLetters(_)))
    ));
    assert_eq!(game.count(), 1);
    assert_eq!(game.state(), GameState::InProgress);
}

#[test]
fn a_game_without_limit_is_never_lost() {
    let mut game = Game::new(word("amber"), list(), None);
    for _ in 0..40 {
        game.guess_str("sonar").unwrap();
    }
    assert_eq!(game.state(), GameState::InProgress);
    assert_eq!(game.count(), 40);
    assert_eq!(game.answer(), word("amber"));
    assert!(game.words_list().contains(word("level")));
}
