use kwordle::guess::LetterState;
use kwordle::word::Word;

fn word(s: &str) -> Word<5> {
    Word::from_str_unchecked(s).expect("hard-coded word should be valid")
}

fn status_string(secret: &str, guess: &str) -> String {
    word(secret)
        .guess(word(guess))
        .states()
        .into_iter()
        .map(|state| match state {
            LetterState::Correct => 'O',
            LetterState::WrongPlace => 'o',
            LetterState::NotPresent => '.',
        })
        .collect()
}

#[test]
fn amber_amber() {
    assert_eq!(status_string("amber", "amber"), "OOOOO");
}

#[test]
fn amber_arbor() {
    assert_eq!(status_string("amber", "arbor"), "O.O.O");
}

#[test]
fn amber_handy() {
    assert_eq!(status_string("amber", "handy"), ".o...");
}

#[test]
fn addra_opals() {
    assert_eq!(status_string("addra", "opals"), "..o..");
}

#[test]
fn mummy_tummy() {
    assert_eq!(status_string("mummy", "tummy"), ".OOOO");
}

#[test]
fn vital_audio() {
    assert_eq!(status_string("vital", "audio"), "o..o.");
}

#[test]
fn scene_eager() {
    assert_eq!(status_string("scene", "eager"), "o..o.");
}

#[test]
fn today_level() {
    assert_eq!(status_string("today", "level"), ".....");
}

#[test]
fn phone_crown() {
    assert_eq!(status_string("phone", "crown"), "..O.o");
}

#[test]
fn royal_newly() {
    assert_eq!(status_string("royal", "newly"), "...oo");
}

#[test]
fn baker_dying() {
    assert_eq!(status_string("baker", "dying"), ".....");
}

#[test]
fn level_topic() {
    assert_eq!(status_string("level", "topic"), ".....");
}

#[test]
fn blind_began() {
    assert_eq!(status_string("blind", "began"), "O...o");
}

#[test]
fn movie_storm() {
    assert_eq!(status_string("movie", "storm"), "..o.o");
}

#[test]
fn spend_super() {
    assert_eq!(status_string("spend", "super"), "O.oo.");
}

#[test]
fn still_worth() {
    assert_eq!(status_string("still", "worth"), "...o.");
}

#[test]
fn build_usage() {
    assert_eq!(status_string("build", "usage"), "o....");
}

#[test]
fn badly_alive() {
    assert_eq!(status_string("badly", "alive"), "oo...");
}

#[test]
fn harry_count() {
    assert_eq!(status_string("harry", "count"), ".....");
}

#[test]
fn split_house() {
    assert_eq!(status_string("split", "house"), "...o.");
}

#[test]
fn quite_trust() {
    assert_eq!(status_string("quite", "trust"), "o.o..");
}

#[test]
fn flash_death() {
    assert_eq!(status_string("flash", "death"), "..O.O");
}

#[test]
fn peter_crime() {
    assert_eq!(status_string("peter", "crime"), ".o..o");
}

#[test]
fn title_china() {
    assert_eq!(status_string("title", "china"), "..o..");
}

#[test]
fn these_smith() {
    assert_eq!(status_string("these", "smith"), "o..oo");
}

#[test]
fn sport_lying() {
    assert_eq!(status_string("sport", "lying"), ".....");
}

#[test]
fn solve_shoot() {
    assert_eq!(status_string("solve", "shoot"), "O.o..");
}

#[test]
fn prior_whole() {
    assert_eq!(status_string("prior", "whole"), "..o..");
}

#[test]
fn maybe_fruit() {
    assert_eq!(status_string("maybe", "fruit"), ".....");
}

#[test]
fn event_dealt() {
    assert_eq!(status_string("event", "dealt"), ".o..O");
}

