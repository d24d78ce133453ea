use kwordle::letter::letters::ParseLettersError;
use kwordle::letter::ParseLetterError;
use kwordle::word::list::answers::drawn_or_first;
use kwordle::word::list::{
    Answers, Collection, Guessable, ParseWordsListError, WordSet, WordsList,
};
use kwordle::word::words::parse_from_str;
use kwordle::word::{ParseWordError, Word, WordValidity};
use rand::rngs::StdRng;
use rand::SeedableRng;

fn word(s: &str) -> Word<5> {
    Word::from_str_unchecked(s).unwrap()
}

fn words(list: &[&str]) -> Vec<Word<5>> {
    list.iter().map(|s| word(s)).collect()
}

#[test]
fn from_text_of_nothing_is_empty_input() {
    assert!(matches!(
        WordsList::<5>::from_text("", ""),
        Err(ParseWordsListError::EmptyInput)
    ));
    assert!(matches!(
        WordsList::<5>::from_text("amber\n", ""),
        Err(ParseWordsListError::EmptyInput)
    ));
    assert!(matches!(
        Guessable::<5>::from_str(""),
        Err(ParseWordsListError::EmptyInput)
    ));
    assert!(matches!(
        Answers::<5>::from_str(""),
        Err(ParseWordsListError::EmptyInput)
    ));
}

#[test]
fn lines_end_at_line_feeds() {
    assert_eq!(
        parse_from_str::<5>("amber\nsonar\n").unwrap(),
        words(&["amber", "sonar"])
    );
    assert_eq!(
        parse_from_str::<5>("amber\nsonar").unwrap(),
        words(&["amber", "sonar"])
    );
    assert_eq!(
        parse_from_str::<5>("AMBER\r\nSonar\r\n").unwrap(),
        words(&["amber", "sonar"])
    );
    assert_eq!(parse_from_str::<5>("").unwrap(), words(&[]));
}

#[test]
fn the_first_bad_line_is_named() {
    match parse_from_str::<5>("amber\nson4r\nto\n") {
        Err(ParseWordsListError::ParseLetters { line, error }) => {
            assert_eq!(line, 2);
            assert!(matches!(
                error,
                ParseLettersError::ParseLetter(ParseLetterError::InvalidChar('4'))
            ));
        }
        other => panic!("unexpected {other:?}"),
    }
    match parse_from_str::<5>("amber\nsonar\ntoo\nx") {
        Err(ParseWordsListError::ParseLetters { line, error }) => {
            assert_eq!(line, 3);
            match error {
                ParseLettersError::WrongLength(e) => assert_eq!((e.expected, e.got), (5, 3)),
                other => panic!("unexpected {other:?}"),
            }
        }
        other => panic!("unexpected {other:?}"),
    }
}

#[test]
fn blank_lines_are_refused() {
    for text in ["amber\n\nsonar\n", "amber\n\n", "\namber"] {
        match parse_from_str::<5>(text) {
            Err(ParseWordsListError::ParseLetters { error, .. }) => match error {
                ParseLettersError::WrongLength(e) => assert_eq!((e.expected, e.got), (5, 0)),
                other => panic!("unexpected {other:?}"),
            },
            other => panic!("unexpected {other:?}"),
        }
    }
    match parse_from_str::<5>("amber\n\nsonar\n") {
        Err(ParseWordsListError::ParseLetters { line, .. }) => assert_eq!(line, 2),
        other => panic!("unexpected {other:?}"),
    }
}

#[test]
fn a_carriage_return_counts_unless_a_line_feed_follows() {
    assert!(parse_from_str::<5>("amber\r\n").is_ok());
    match parse_from_str::<5>("amber\r") {
        Err(ParseWordsListError::ParseLetters { line, error }) => {
            assert_eq!(line, 1);
            assert!(matches!(
                error,
                ParseLettersError::ParseLetter(ParseLetterError::InvalidChar('\r'))
            ));
        }
        other => panic!("unexpected {other:?}"),
    }
}

#[test]
fn guessable_is_a_set() {
    let guessable = Guessable::from_words(words(&["amber", "sonar", "amber"])).unwrap();
    assert_eq!(guessable.len(), 2);
    assert!(guessable.contains(word("amber")));
    assert!(guessable.contains(word("SONAR")));
    assert!(!guessable.contains(word("tummy")));
    assert!(guessable.contains_letters(word("sonar").letters()));
    assert_eq!(guessable.iter(), words(&["amber", "sonar"]));
    assert!(Guessable::<5>::from_words(vec![]).is_none());
}

#[test]
fn answers_keep_their_order() {
    let answers = Answers::try_from_iter(words(&["sonar", "amber", "sonar"])).unwrap();
    assert_eq!(answers.len(), 3);
    assert_eq!(answers.as_slice(), words(&["sonar", "amber", "sonar"]).as_slice());
    assert_eq!(answers.to_set().len(), 2);
    assert_eq!(answers.clone().into_set().to_vec(), words(&["sonar", "amber"]));
    assert!(Answers::<5>::try_from_iter(vec![]).is_none());
}

#[test]
fn includes_and_excludes_answers() {
    let guessable = Guessable::from_words(words(&["amber", "sonar", "tummy"])).unwrap();
    let inside = Answers::try_from_iter(words(&["amber", "tummy"])).unwrap();
    let outside = Answers::try_from_iter(words(&["mummy", "level"])).unwrap();
    let mixed = Answers::try_from_iter(words(&["amber", "level"])).unwrap();
    assert!(guessable.includes_answers(&inside));
    assert!(!guessable.excludes_answers(&inside));
    assert!(!guessable.includes_answers(&outside));
    assert!(guessable.excludes_answers(&outside));
    assert!(!guessable.includes_answers(&mixed));
    assert!(!guessable.excludes_answers(&mixed));
    assert_eq!(
        guessable.answers_intersection(&mixed).to_vec(),
        words(&["amber"])
    );
    assert!(guessable.answers_intersection(&outside).is_empty());
}

#[test]
fn every_answer_of_a_list_is_guessable() {
    let lists = vec![
        WordsList::<5>::from_text("amber\nsonar\ntummy\n", "amber\ntummy\n").unwrap(),
        WordsList::<5>::from_text("amber\nsonar\n", "mummy\nlevel\n").unwrap(),
        WordsList::from_guessable(Guessable::from_words(words(&["amber", "sonar"])).unwrap()),
    ];
    for list in lists {
        for answer in list.answers().as_slice() {
            assert!(list.contains(*answer));
            assert!(list.guessable().contains(*answer));
        }
    }
}

#[test]
fn exclusive_secrets_are_added_to_the_guessable_words() {
    let list = WordsList::<5>::from_text("amber\nsonar\n", "mummy\nlevel\n").unwrap();
    assert_eq!(list.guessable().len(), 4);
    assert_eq!(list.answers().len(), 2);
    assert!(list.contains(word("mummy")));
    assert!(list.contains(word("amber")));
    assert!(!list.contains(word("tummy")));

    let guessable = Guessable::from_words(words(&["amber", "sonar"])).unwrap();
    let answers = Answers::try_from_iter(words(&["mummy"])).unwrap();
    assert!(guessable.excludes_answers(&answers));
    let list = WordsList::new_exclusive(guessable, answers);
    assert_eq!(list.guessable().iter(), words(&["amber", "sonar", "mummy"]));
}

#[test]
fn inclusive_secrets_leave_the_guessable_words_as_they_are() {
    let guessable = Guessable::from_words(words(&["amber", "sonar", "tummy"])).unwrap();
    let answers = Answers::try_from_iter(words(&["tummy"])).unwrap();
    assert!(guessable.includes_answers(&answers));
    let list = WordsList::new_inclusive(guessable, answers);
    assert_eq!(list.guessable().len(), 3);
    assert_eq!(list.answers().as_slice(), words(&["tummy"]).as_slice());

    let guessable = Guessable::from_words(words(&["amber", "sonar", "tummy"])).unwrap();
    let answers = Answers::try_from_iter(words(&["tummy"])).unwrap();
    let list = WordsList::new(guessable, answers);
    assert_eq!(list.guessable().len(), 3);
}

#[test]
fn secrets_that_are_partly_guessable_are_refused() {
    assert!(matches!(
        WordsList::<5>::from_text("amber\nsonar\n", "amber\nlevel\n"),
        Err(ParseWordsListError::InvariantViolation)
    ));
    let guessable = Guessable::from_words(words(&["amber", "sonar"])).unwrap();
    let answers = Answers::try_from_iter(words(&["amber", "level"])).unwrap();
    assert!(matches!(
        WordsList::try_new(guessable, answers),
        Err(ParseWordsListError::InvariantViolation)
    ));
}

#[test]
fn the_error_of_the_guessable_text_comes_first() {
    match WordsList::<5>::from_text("amber\nson\n", "l3vel\n") {
        Err(ParseWordsListError::ParseLetters { line, error }) => {
            assert_eq!(line, 2);
            assert!(matches!(error, ParseLettersError::WrongLength(_)));
        }
        other => panic!("unexpected {other:?}"),
    }
    match WordsList::<5>::from_text("amber\n", "l3vel\n") {
        Err(ParseWordsListError::ParseLetters { line, error }) => {
            assert_eq!(line, 1);
            assert!(matches!(
                error,
                ParseLettersError::ParseLetter(ParseLetterError::InvalidChar('3'))
            ));
        }
        other => panic!("unexpected {other:?}"),
    }
}

#[test]
fn from_guessable_makes_every_word_a_secret() {
    let guessable = Guessable::from_words(words(&["amber", "sonar", "amber"])).unwrap();
    let list = WordsList::from_guessable(guessable);
    assert_eq!(list.answers().as_slice(), words(&["amber", "sonar"]).as_slice());
    assert_eq!(list.guessable().len(), 2);
}

#[test]
fn a_drawn_secret_is_one_of_the_answers() {
    let list = WordsList::<5>::from_text("amber\nsonar\ntummy\nlevel\n", "sonar\nlevel\n")
        .unwrap();
    let mut rng = StdRng::seed_from_u64(7);
    let mut seen = std::collections::HashSet::new();
    for _ in 0..200 {
        let secret = list.random_answer_with(&mut rng);
        assert!(list.answers().as_slice().contains(&secret));
        assert!(list.contains(secret));
        seen.insert(secret);
    }
    assert_eq!(seen.len(), 2);
    let secret = list.random_answer();
    assert!(list.answers().as_slice().contains(&secret));
    let secret = list.answers().random();
    assert!(list.answers().as_slice().contains(&secret));
    let secret = list.answers().random_with(&mut rng);
    assert!(list.answers().as_slice().contains(&secret));
}

#[test]
fn words_are_looked_up_in_the_list() {
    let list = WordsList::<5>::from_text("amber\nsonar\n", "amber\n").unwrap();
    assert_eq!(Word::from_str(&list, "Sonar").unwrap(), word("sonar"));
    assert_eq!(
        Word::from_letters(&list, word("amber").letters()).unwrap(),
        word("amber")
    );
    match Word::from_str(&list, "tummy") {
        Err(ParseWordError::NotInList { letters }) => {
            assert_eq!(letters, word("tummy").letters().to_vec())
        }
        other => panic!("unexpected {other:?}"),
    }
    assert!(matches!(
        Word::from_str(&list, "tumm"),
        Err(ParseWordError::ParseLetters(ParseLettersError::WrongLength(_)))
    ));
    assert!(matches!(
        Word::from_str(&list, "tumm!"),
        Err(ParseWordError::ParseLetters(ParseLettersError::ParseLetter(_)))
    ));
    assert!(word("amber").guess_str(&list, "sonar").is_ok());
    assert!(matches!(
        word("amber").guess_str(&list, "tummy"),
        Err(ParseWordError::NotInList { .. })
    ));
}

#[test]
fn a_missing_draw_falls_back_on_the_first_word() {
    let row = words(&["amber", "sonar"]);
    assert_eq!(drawn_or_first(&row, Some(word("level"))), Some(word("level")));
    assert_eq!(drawn_or_first(&row, None), Some(word("amber")));
    assert_eq!(drawn_or_first::<5>(&[], None), None);
}

#[test]
fn word_set_holds_each_word_once() {
    let mut set = WordSet::<5>::new();
    assert!(set.is_empty());
    assert!(set.insert(word("amber")));
    assert!(!set.insert(word("AMBER")));
    assert!(set.insert(word("sonar")));
    assert_eq!(set.len(), 2);
    assert!(set.contains(&word("sonar")));
    assert!(!set.contains(&word("tummy")));
    assert_eq!(set.as_slice(), words(&["amber", "sonar"]).as_slice());
    assert_eq!(set.clone().to_vec(), set.to_vec());
    assert_eq!(
        WordSet::from_words(words(&["a", "b"].map(|_| "level"))).len(),
        1
    );
}

#[test]
fn validity_tells_guess_from_answer() {
    assert!(WordValidity::guess().is_guess());
    assert!(!WordValidity::guess().is_answer());
    assert!(WordValidity::answer().is_guess());
    assert!(WordValidity::answer().is_answer());
    assert_eq!(WordValidity::default(), WordValidity::guess());
}

#[test]
fn collection_is_never_empty() {
    use_collection_over_a_set();
    use_collection_over_a_row();
}

fn use_collection_over_a_set() {
    let mut collection =
        Collection::<5, WordSet<5>>::from_str("amber\nsonar\namber\n").unwrap();
    assert_eq!(collection.iter(), words(&["amber", "sonar"]).as_slice());
    assert!(collection.contains(word("sonar")));
    assert!(!collection.contains(word("tummy")));
    collection.push(word("tummy"));
    collection.push(word("amber"));
    assert_eq!(collection.iter().len(), 3);
    assert!(collection.contains(word("tummy")));
    let mut rng = StdRng::seed_from_u64(11);
    for _ in 0..50 {
        let drawn = collection.random_with(&mut rng);
        assert!(collection.contains(drawn));
    }
    assert!(Collection::<5, WordSet<5>>::from_words(vec![]).is_none());
    assert!(Collection::<5, WordSet<5>>::try_new(WordSet::new()).is_none());
    assert!(matches!(
        Collection::<5, WordSet<5>>::from_str(""),
        Err(ParseWordsListError::EmptyInput)
    ));
    assert!(matches!(
        Collection::<5, WordSet<5>>::from_str("amber\nxy\n"),
        Err(ParseWordsListError::ParseLetters { line: 2, .. })
    ));
}

fn use_collection_over_a_row() {
    let mut collection =
        Collection::<5, Vec<Word<5>>>::from_words(words(&["amber", "amber"])).unwrap();
    assert_eq!(collection.iter().len(), 2);
    collection.push(word("level"));
    assert!(collection.contains(word("level")));
    assert!(!collection.contains(word("sonar")));
    assert!(Collection::<5, Vec<Word<5>>>::try_new(vec![]).is_none());
}

#[test]
fn a_large_set_finds_every_word_and_no_other() {
    let mut all = Vec::new();
    for a in 0..26u8 {
        for b in 0..26u8 {
            for c in 0..4u8 {
                let text: String = [a, b, c, 25 - a, 25 - b]
                    .iter()
                    .map(|i| (b'a' + i) as char)
                    .collect();
                all.push(word(&text));
            }
        }
    }
    let set = WordSet::from_words(all.clone());
    assert_eq!(set.len(), all.len());
    for w in &all {
        assert!(set.contains(w));
    }
    assert!(!set.contains(&word("zzzzz")));
    assert!(!set.contains(&word("aaeaa")));
    assert_eq!(set.to_vec(), all);
}

#[test]
fn long_words_that_share_a_key_are_told_apart() {
    let long = |s: &str| Word::<16>::from_str_unchecked(s).unwrap();
    let mut set = WordSet::<16>::new();
    let words = [
        "aaaaaaaaaaaaaaaa",
        "baaaaaaaaaaaaaaa",
        "abaaaaaaaaaaaaaa",
        "aaaaaaaaaaaaaaab",
        "zzzzzzzzzzzzzzzz",
        "azzzzzzzzzzzzzzz",
    ];
    for w in words {
        assert!(set.insert(long(w)));
    }
    for w in words {
        assert!(set.contains(&long(w)));
        assert!(!set.insert(long(w)));
    }
    assert!(!set.contains(&long("caaaaaaaaaaaaaaa")));
    assert!(!set.contains(&long("bzzzzzzzzzzzzzzz")));
    assert_eq!(set.len(), 6);
}
