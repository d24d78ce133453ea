//! The text of a word list: one word on each line.
//!
//! A line ends at a line feed, and a carriage return just before the line feed
//! is not part of the line. What follows the last line feed is a line of its own
//! unless it is empty. Every line holds one word; a blank line holds none and is
//! refused like any other line of the wrong length.

use super::list::error::ParseWordsListError;
use super::list::word_set::{lemma_views_push, views};
use super::Word;
use crate::letter::letters::{chars_of, parse_letters, Letters};
use crate::letter::Letter;
use vstd::prelude::*;

verus! {

/// The line feed, at which a line ends.
pub open spec fn line_feed() -> char {
    '\n'
}

/// The carriage return, which may stand before a line feed.
pub open spec fn carriage_return() -> char {
    '\r'
}

/// The line without the carriage return at its end, if it has one.
pub open spec fn without_return(line: Seq<char>) -> Seq<char> {
    if line.len() > 0 && line.last() == carriage_return() {
        line.drop_last()
    } else {
        line
    }
}

/// What follows the last line feed of the text: the line that is not ended yet.
pub open spec fn unfinished(text: Seq<char>) -> Seq<char>
    decreases text.len(),
{
    if text.len() == 0 {
        Seq::empty()
    } else if text.last() == line_feed() {
        Seq::empty()
    } else {
        unfinished(text.drop_last()).push(text.last())
    }
}

/// The lines of the text that a line feed ends.
pub open spec fn finished(text: Seq<char>) -> Seq<Seq<char>>
    decreases text.len(),
{
    if text.len() == 0 {
        Seq::empty()
    } else if text.last() == line_feed() {
        finished(text.drop_last()).push(without_return(unfinished(text.drop_last())))
    } else {
        finished(text.drop_last())
    }
}

/// The lines of the text.
pub open spec fn lines(text: Seq<char>) -> Seq<Seq<char>> {
    if unfinished(text).len() > 0 {
        finished(text).push(unfinished(text))
    } else {
        finished(text)
    }
}

/// The words that the lines hold, line by line; or the first line that holds
/// none, by its number counted from 1, with the reason.
pub open spec fn parse_lines(lines: Seq<Seq<char>>, n: nat) -> Result<
    Seq<Seq<Letter>>,
    ParseWordsListError,
>
    decreases lines.len(),
{
    if lines.len() == 0 {
        Ok(Seq::empty())
    } else {
        match parse_lines(lines.drop_last(), n) {
            Ok(words) => match parse_letters(lines.last(), n) {
                Ok(letters) => Ok(words.push(letters)),
                Err(error) => Err(
                    ParseWordsListError::ParseLetters { line: lines.len() as usize, error },
                ),
            },
            Err(error) => Err(error),
        }
    }
}

/// The words of a text with one word of `n` letters on each line; or the
/// first line that holds none.
pub open spec fn parse_list(text: Seq<char>, n: nat) -> Result<
    Seq<Seq<Letter>>,
    ParseWordsListError,
> {
    parse_lines(lines(text), n)
}

/// Whether `r` is what [`parse_list`] gives, the words taken by their view.
pub open spec fn is_list_parse_of<const N: usize>(
    r: Result<Vec<Word<N>>, ParseWordsListError>,
    text: Seq<char>,
) -> bool {
    match r {
        Ok(words) => parse_list(text, N as nat) == Ok::<Seq<Seq<Letter>>, ParseWordsListError>(
            views(words@),
        ),
        Err(error) => parse_list(text, N as nat) == Err::<Seq<Seq<Letter>>, ParseWordsListError>(
            error,
        ),
    }
}

/// A line that holds no word is found whatever follows it, and when every
/// line holds a word there are as many words as lines.
pub proof fn lemma_parse_lines_prefix(lines: Seq<Seq<char>>, n: nat, m: int)
    requires
        0 <= m <= lines.len(),
    ensures
        parse_lines(lines.take(m), n) is Err ==> parse_lines(lines, n) == parse_lines(
            lines.take(m),
            n,
        ),
        parse_lines(lines, n) matches Ok(words) ==> words.len() == lines.len(),
    decreases lines.len() - m,
{
    lemma_parse_lines_len(lines, n);
    if m == lines.len() {
        assert(lines.take(m) =~= lines);
    } else {
        lemma_parse_lines_prefix(lines, n, m + 1);
        assert(lines.take(m + 1).drop_last() =~= lines.take(m));
    }
}

/// When every line holds a word there are as many words as lines.
pub proof fn lemma_parse_lines_len(lines: Seq<Seq<char>>, n: nat)
    ensures
        parse_lines(lines, n) matches Ok(words) ==> words.len() == lines.len(),
    decreases lines.len(),
{
    if lines.len() > 0 {
        lemma_parse_lines_len(lines.drop_last(), n);
    }
}

/// The lines that are ended within the first `n` characters are the first of
/// the lines of the whole text.
pub proof fn lemma_finished_prefix(text: Seq<char>, n: int)
    requires
        0 <= n <= text.len(),
    ensures
        finished(text.take(n)).len() <= finished(text).len(),
        finished(text.take(n)) == finished(text).take(finished(text.take(n)).len() as int),
        finished(text).len() <= lines(text).len(),
        finished(text) == lines(text).take(finished(text).len() as int),
        finished(text.take(n)).len() + unfinished(text.take(n)).len() <= n,
    decreases text.len() - n,
{
    assert(finished(text) =~= lines(text).take(finished(text).len() as int));
    if n == text.len() {
        assert(text.take(n) =~= text);
        assert(finished(text) =~= finished(text).take(finished(text).len() as int));
    } else {
        lemma_finished_prefix(text, n + 1);
        assert(text.take(n + 1).drop_last() =~= text.take(n));
        let longer = finished(text.take(n + 1));
        let shorter = finished(text.take(n));
        assert(shorter =~= longer.take(shorter.len() as int));
        assert(shorter =~= finished(text).take(shorter.len() as int));
    }
    lemma_lines_shorter(text.take(n));
}

/// A text has no more lines and unfinished characters than it has characters.
pub proof fn lemma_lines_shorter(text: Seq<char>)
    ensures
        finished(text).len() + unfinished(text).len() <= text.len(),
    decreases text.len(),
{
    if text.len() > 0 {
        lemma_lines_shorter(text.drop_last());
    }
}

/// Reads a list of words of `N` letters, one on each line.
pub fn parse_from_str<const N: usize>(s: &str) -> (r: Result<Vec<Word<N>>, ParseWordsListError>)
    ensures
        is_list_parse_of(r, s@),
{
    let text = chars_of(s);
    let mut words: Vec<Word<N>> = Vec::new();
    let mut current: Vec<char> = Vec::new();
    let mut i: usize = 0;
    proof {
        assert(views(words@) =~= Seq::<Seq<Letter>>::empty());
    }
    while i < text.len()
        invariant
            i <= text@.len(),
            text@ == s@,
            current@ == unfinished(text@.take(i as int)),
            parse_lines(finished(text@.take(i as int)), N as nat) == Ok::<
                Seq<Seq<Letter>>,
                ParseWordsListError,
            >(views(words@)),
        decreases text@.len() - i,
    {
        let ch = text[i];
        let ghost before = finished(text@.take(i as int));
        let ghost after = finished(text@.take(i + 1));
        proof {
            assert(text@.take(i + 1).drop_last() =~= text@.take(i as int));
            lemma_finished_prefix(text@, i + 1);
            lemma_parse_lines_len(before, N as nat);
        }
        if ch == '\n' {
            let n = current.len();
            if n > 0 && current[n - 1] == '\r' {
                current.pop();
            }
            proof {
                assert(after.drop_last() =~= before);
            }
            match Letters::<N>::from_chars(current.as_slice()) {
                Ok(letters) => {
                    let word = Word::new_unchecked(letters);
                    proof {
                        lemma_views_push(words@, word);
                    }
                    words.push(word);
                },
                Err(error) => {
                    proof {
                        let all = lines(text@);
                        assert(after =~= all.take(after.len() as int));
                        lemma_parse_lines_prefix(all, N as nat, after.len() as int);
                    }
                    return Err(ParseWordsListError::ParseLetters { line: words.len() + 1, error });
                },
            }
            current = Vec::new();
        } else {
            current.push(ch);
        }
        i = i + 1;
    }
    proof {
        assert(text@.take(text@.len() as int) =~= text@);
        lemma_lines_shorter(text@);
        lemma_parse_lines_len(finished(text@), N as nat);
        if current@.len() > 0 {
            assert(lines(text@).drop_last() =~= finished(text@));
        }
    }
    if current.len() > 0 {
        match Letters::<N>::from_chars(current.as_slice()) {
            Ok(letters) => {
                let word = Word::new_unchecked(letters);
                proof {
                    lemma_views_push(words@, word);
                }
                words.push(word);
            },
            Err(error) => {
                return Err(ParseWordsListError::ParseLetters { line: words.len() + 1, error });
            },
        }
    }
    Ok(words)
}

} // verus!
