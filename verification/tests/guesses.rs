use kwordle::guess::LetterState::{Correct, NotPresent, WrongPlace};
use kwordle::guess::{Guess, Guesses, LetterState, LetterWithState};
use kwordle::letter::letters::Letters;
use kwordle::letter::Letter;
use kwordle::word::Word;

fn word(s: &str) -> Word<5> {
    Word::from_str_unchecked(s).unwrap()
}

fn marked(secret: &str, guess: &str) -> Guess<5> {
    word(secret).guess(word(guess))
}

#[test]
fn none_present_marks_nothing() {
    let guess = Guess::none_present(Letters::<5>::from_str("crane").unwrap());
    assert_eq!(guess.states(), vec![LetterState::NotPresent; 5]);
    assert_eq!(
        guess.letters(),
        vec![Letter::C, Letter::R, Letter::A, Letter::N, Letter::E]
    );
    assert!(!guess.is_correct());
}

#[test]
fn guess_keeps_the_guessed_letters_in_place() {
    let guess = marked("amber", "arbor");
    assert_eq!(guess.letters(), word("arbor").letters().to_vec());
    assert_eq!(guess.to_vec().len(), 5);
    assert_eq!(guess.get(0), Some((Letter::A, LetterState::Correct)));
    assert_eq!(guess.get(1), Some((Letter::R, LetterState::NotPresent)));
    assert_eq!(guess.get(4), Some((Letter::R, LetterState::Correct)));
    assert_eq!(guess.get(5), None);
}

#[test]
fn guessing_the_secret_is_correct() {
    for s in ["amber", "mummy", "aaaaa", "zzzzz", "level"] {
        assert!(marked(s, s).is_correct());
        assert_eq!(marked(s, s).states(), vec![LetterState::Correct; 5]);
    }
    assert!(!marked("amber", "ambes").is_correct());
}

#[test]
fn a_letter_is_marked_no_more_often_than_the_secret_holds_it() {
    let words = ["amber", "mummy", "tummy", "level", "eerie", "geese", "aaaab", "baaaa"];
    for secret in words {
        for guess in words {
            let result = marked(secret, guess);
            for i in 0..26u8 {
                let letter = Letter::from_index(i).unwrap();
                let in_secret = word(secret)
                    .letters()
                    .to_vec()
                    .into_iter()
                    .filter(|l| *l == letter)
                    .count();
                let marks = result
                    .to_vec()
                    .into_iter()
                    .filter(|(l, state)| *l == letter && *state != LetterState::NotPresent)
                    .count();
                assert!(marks <= in_secret);
            }
        }
    }
}

#[test]
fn only_the_first_spare_occurrences_are_in_the_wrong_place() {
    assert_eq!(
        marked("geese", "eerie").states(),
        vec![WrongPlace, Correct, NotPresent, NotPresent, Correct]
    );
    assert_eq!(
        marked("abcde", "eaaaa").states(),
        vec![WrongPlace, WrongPlace, NotPresent, NotPresent, NotPresent]
    );
    assert_eq!(
        marked("aabbb", "bbaac").states(),
        vec![WrongPlace, WrongPlace, WrongPlace, WrongPlace, NotPresent]
    );
    assert_eq!(
        marked("abbbb", "aaaab").states(),
        vec![Correct, NotPresent, NotPresent, NotPresent, Correct]
    );
}

#[test]
fn set_state_changes_one_mark() {
    let mut guess = Guess::none_present(Letters::<5>::from_str("crane").unwrap());
    guess.set_state(2, LetterState::WrongPlace);
    assert_eq!(guess.get(2), Some((Letter::A, LetterState::WrongPlace)));
    assert_eq!(guess.get(1), Some((Letter::R, LetterState::NotPresent)));
}

#[test]
fn unused_letters_are_the_rest_of_the_alphabet() {
    let unused = marked("amber", "arbor").unused_letters();
    assert_eq!(unused.len(), 22);
    for letter in [Letter::A, Letter::R, Letter::B, Letter::O] {
        assert!(!unused.contains(&letter));
    }
    assert!(unused.contains(&Letter::M));
    assert!(unused.contains(&Letter::E));
}

#[test]
fn letter_state_defaults_to_not_present() {
    assert_eq!(LetterState::default(), LetterState::NotPresent);
    assert_eq!(
        LetterState::not_present(Letter::K),
        (Letter::K, LetterState::NotPresent)
    );
    assert!(LetterState::Correct.is_correct());
    assert!(!LetterState::WrongPlace.is_correct());
    assert!(!LetterState::NotPresent.is_correct());
}

#[test]
fn letter_with_state_keeps_both() {
    let mut pair = LetterWithState::default(Letter::J);
    assert_eq!(pair.letter(), Letter::J);
    assert_eq!(pair.state(), LetterState::NotPresent);
    assert!(!pair.is_correct());
    pair.set_state(LetterState::Correct);
    assert_eq!(pair, LetterWithState::new(Letter::J, LetterState::Correct));
    assert!(pair.is_correct());
}

#[test]
fn history_takes_no_more_than_its_limit() {
    let mut history = Guesses::<5>::new(Some(3));
    assert_eq!(history.max(), Some(3));
    assert_eq!(history.count(), 0);
    assert_eq!(history.latest(), None);
    assert!(!history.latest_is_correct());
    let mut accepted = 0;
    for guess in ["arbor", "handy", "tummy", "amber", "sonar"] {
        if history.push(marked("amber", guess)) {
            accepted += 1;
        }
        assert_eq!(history.count(), accepted);
        assert!(history.count() <= 3);
    }
    assert_eq!(accepted, 3);
    assert!(history.max_reached());
    assert_eq!(history.latest(), Some(marked("amber", "tummy")));
    assert!(!history.push(marked("amber", "amber")));
    assert!(!history.latest_is_correct());
    assert_eq!(history.as_slice().len(), 3);
    assert_eq!(history.iter()[0], marked("amber", "arbor"));
    assert_eq!(history.clone().to_vec(), history.iter());
}

#[test]
fn history_without_limit_takes_every_guess() {
    let mut history = Guesses::<5>::new(None);
    for _ in 0..50 {
        assert!(history.push(marked("amber", "arbor")));
    }
    assert!(history.push(marked("amber", "amber")));
    assert_eq!(history.count(), 51);
    assert!(!history.max_reached());
    assert!(history.latest_is_correct());
}

#[test]
fn history_with_limit_zero_takes_nothing() {
    let mut history = Guesses::<5>::new(Some(0));
    assert!(history.max_reached());
    assert!(!history.push(marked("amber", "amber")));
    assert_eq!(history.count(), 0);
}

#[test]
fn classic_history_takes_six() {
    let classic = Guesses::<5>::classic();
    assert_eq!(classic.max(), Some(6));
    assert_eq!(classic.count(), 0);
    assert_eq!(Guesses::<5>::default().max(), Some(6));
}

#[test]
fn history_unused_letters_shrink_with_each_guess() {
    let mut history = Guesses::<5>::new(None);
    assert_eq!(history.unused_letters().len(), 26);
    history.push(marked("amber", "arbor"));
    assert_eq!(history.unused_letters().len(), 22);
    history.push(marked("amber", "handy"));
    let unused = history.unused_letters();
    assert_eq!(unused.len(), 18);
    assert!(!unused.contains(&Letter::H));
    assert!(unused.contains(&Letter::Z));
}

#[test]
fn get_mut_changes_one_mark_in_place() {
    let mut guess = Guess::none_present(Letters::<5>::from_str("crane").unwrap());
    match guess.get_mut(3) {
        Some((letter, state)) => {
            assert_eq!(letter, Letter::N);
            assert_eq!(*state, NotPresent);
            *state = Correct;
        }
        None => panic!("position 3 is within the guess"),
    }
    assert!(guess.get_mut(5).is_none());
    assert_eq!(
        guess.states(),
        vec![NotPresent, NotPresent, NotPresent, Correct, NotPresent]
    );
    assert_eq!(guess.letters(), word("crane").letters().to_vec());
}
