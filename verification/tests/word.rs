use kwordle::letter::Letter;
use kwordle::letter::letters::{Letters, ParseLettersError};
use kwordle::letter::ParseLetterError;
use kwordle::word::Word;
use std::cmp::Ordering;

fn amber_word() -> Word<5> {
    Word::from_str_unchecked("amber").expect("hard-coded word should be valid")
}

fn sonar_word() -> Word<5> {
    Word::from_str_unchecked("sonar").expect("hard-coded word should be valid")
}

fn mummy_word() -> Word<5> {
    Word::from_str_unchecked("mummy").expect("hard-coded word should be valid")
}

fn tummy_word() -> Word<5> {
    Word::from_str_unchecked("tummy").expect("hard-coded word should be valid")
}

#[test]
fn to_string() {
    assert_eq!(amber_word().to_string().as_str(), "amber");
    assert_ne!(sonar_word().to_string().as_str(), "amber");
}

#[test]
fn partial_eq_str() {
    assert_eq!(amber_word(), "amber");
    assert_ne!(sonar_word(), "amber")
}

#[test]
fn amber() {
    let word = amber_word();
    let map = word.letters_map();

    for letter in word.letters().to_vec() {
        assert!(map.contains_letter(letter));
        assert_eq!(map.count_letter(letter), 1);
    }
}

#[test]
fn mummy() {
    let word = mummy_word();
    let map = word.letters_map();

    for letter in word.letters().to_vec() {
        assert!(map.contains_letter(letter))
    }

    assert_eq!(map.count_letter(Letter::M), 3);
    assert_eq!(map.count_letter(Letter::U), 1);
    assert_eq!(map.count_letter(Letter::Y), 1);
}

#[test]
fn tummy() {
    let word = tummy_word();
    let map = word.letters_map();

    for letter in word.letters().to_vec() {
        assert!(map.contains_letter(letter))
    }

    assert_eq!(map.count_letter(Letter::T), 1);
    assert_eq!(map.count_letter(Letter::U), 1);
    assert_eq!(map.count_letter(Letter::M), 2);
    assert_eq!(map.count_letter(Letter::Y), 1);
}

#[test]
fn word_equality_follows_letters() {
    assert!(amber_word() == amber_word());
    assert!(amber_word() != sonar_word());
    assert!(amber_word() == Word::from_str_unchecked("AmBeR").unwrap());
    assert!(amber_word().eq_letters(&Letters::<5>::from_str("amber").unwrap()));
    assert!(!amber_word().eq_letters(&Letters::<5>::from_str("sonar").unwrap()));
}

#[test]
fn conversions_keep_the_value() {
    let letters: Letters<5> = amber_word().into();
    assert_eq!(letters, Letters::<5>::from_str("amber").unwrap());
    assert!(amber_word() == letters);
    assert_eq!(char::from(Letter::G), 'g');
    assert!(matches!(
        ParseLettersError::from(ParseLetterError::InvalidChar('1')),
        ParseLettersError::ParseLetter(ParseLetterError::InvalidChar('1'))
    ));
    assert!(matches!(
        ParseLettersError::from(kwordle::array::LengthError::new(5, 2)),
        ParseLettersError::WrongLength(e) if e.expected == 5 && e.got == 2
    ));
    assert!(matches!(
        kwordle::word::ParseWordError::from(ParseLettersError::from(
            ParseLetterError::invalid_char('1')
        )),
        kwordle::word::ParseWordError::ParseLetters(_)
    ));
    let parse_char = "ab".parse::<char>().unwrap_err();
    assert!(matches!(
        ParseLetterError::from(parse_char.clone()),
        ParseLetterError::ParseChar(e) if e == parse_char
    ));
    assert!(matches!(
        ParseLetterError::parse_char(parse_char.clone()),
        ParseLetterError::ParseChar(e) if e == parse_char
    ));
}

#[test]
fn eq_str_is_exact() {
    assert!(!amber_word().eq_str("ambe"));
    assert!(!amber_word().eq_str("ambers"));
    assert!(!amber_word().eq_str("AMBER"));
    assert!(!amber_word().eq_str(""));
}

#[test]
fn word_letters_in_order() {
    assert_eq!(
        amber_word().letters().to_vec(),
        vec![Letter::A, Letter::M, Letter::B, Letter::E, Letter::R]
    );
    assert_eq!(amber_word().letters().get(2), Some(&Letter::B));
    assert_eq!(amber_word().letters().get(5), None);
}

#[test]
fn word_of_wrong_length_is_refused() {
    match Word::<5>::from_str_unchecked("ambers") {
        Err(ParseLettersError::WrongLength(error)) => {
            assert_eq!(error.expected, 5);
            assert_eq!(error.got, 6);
        }
        other => panic!("unexpected {other:?}"),
    }
    match Word::<5>::from_str_unchecked("") {
        Err(ParseLettersError::WrongLength(error)) => {
            assert_eq!(error.expected, 5);
            assert_eq!(error.got, 0);
        }
        other => panic!("unexpected {other:?}"),
    }
}

#[test]
fn first_invalid_char_is_named_before_the_length() {
    match Word::<5>::from_str_unchecked("am-er?!") {
        Err(ParseLettersError::ParseLetter(ParseLetterError::InvalidChar(ch))) => {
            assert_eq!(ch, '-')
        }
        other => panic!("unexpected {other:?}"),
    }
}

#[test]
fn letters_map_counts_down() {
    let mut map = mummy_word().letters_map();
    assert_eq!(map.decrement(Letter::M), Some(2));
    assert_eq!(map.decrement(Letter::M), Some(1));
    assert_eq!(map.decrement(Letter::M), Some(0));
    assert!(!map.contains_letter(Letter::M));
    assert_eq!(map.decrement(Letter::M), None);
    assert_eq!(map.decrement(Letter::A), None);
    assert_eq!(map.count_letter(Letter::U), 1);
    map.increment(Letter::A);
    map.increment(Letter::A);
    assert_eq!(map.count_letter(Letter::A), 2);
    map.insert(Letter::A);
    assert_eq!(map.count_letter(Letter::A), 1);
}

#[test]
fn words_are_ordered_as_in_a_dictionary() {
    assert!(amber_word() < sonar_word());
    assert!(mummy_word() < tummy_word());
    assert!(tummy_word() > mummy_word());
    assert!(amber_word() <= amber_word());
    assert!(Word::<5>::from_str_unchecked("ambes").unwrap() > amber_word());
    assert!(Word::<5>::from_str_unchecked("amazz").unwrap() < amber_word());
    assert_eq!(amber_word().partial_cmp(&amber_word()), Some(Ordering::Equal));
    assert_eq!(amber_word().partial_cmp(&sonar_word()), Some(Ordering::Less));
    assert_eq!(amber_word().cmp(&sonar_word()), Ordering::Less);
    assert_eq!(Letter::C.partial_cmp(&Letter::B), Some(Ordering::Greater));
    assert_eq!(Letter::C.cmp(&Letter::B), Ordering::Greater);
    let mut sorted = vec![sonar_word(), tummy_word(), amber_word(), mummy_word()];
    sorted.sort();
    assert_eq!(sorted, vec![amber_word(), mummy_word(), sonar_word(), tummy_word()]);
    let classic: kwordle::classic::Word = amber_word();
    assert_eq!(classic, amber_word());
}
