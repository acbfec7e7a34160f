//! The command that launches a session, as the words of its `Exec` line.
//!
//! The line is split into words as a POSIX shell would split it, by the
//! `shlex` crate. What it splits a line into is not restated here: it is
//! referred to by name, as a function of the line.

use vstd::prelude::*;
use vstd::string::*;

verus! {

/// The words that the `shlex` crate splits `line` into, quotes and escapes
/// resolved; `None` where the line ends inside a quotation or behind a
/// backslash.
pub uninterp spec fn shell_words(line: Seq<char>) -> Option<Seq<Seq<char>>>;

/// Splits `line` with `shlex::split`.
///
/// Trusted: the body is not verified. The contract claims only that the
/// outcome is the one named `shell_words`, that is, that it depends on the
/// line alone.
#[verifier::external_body]
pub(crate) fn split_words(line: &str) -> (words: Option<Vec<String>>)
    ensures
        words.deep_view() == shell_words(line@),
{
    shlex::split(line)
}

/// The command that a split line comes to: its words, unless the line could
/// not be split or has no word at all.
pub open spec fn usable_words(words: Option<Seq<Seq<char>>>) -> Option<Seq<Seq<char>>> {
    match words {
        Some(w) => if w.len() > 0 {
            Some(w)
        } else {
            None
        },
        None => None,
    }
}

/// The command that a captured `Exec` value stands for. There is none where
/// no value was captured, where the value is empty, where it cannot be split
/// into words, and where it holds no word.
pub open spec fn command_of(capture: Option<Seq<char>>) -> Option<Seq<Seq<char>>> {
    match capture {
        Some(line) => if line.len() == 0 {
            None
        } else {
            usable_words(shell_words(line))
        },
        None => None,
    }
}

/// Keeps the words of a split line if they make a command: a line that could
/// not be split, or that has no word, gives none.
pub fn accept_words(words: Option<Vec<String>>) -> (command: Option<Vec<String>>)
    ensures
        command.deep_view() == usable_words(words.deep_view()),
{
    match words {
        Some(w) => {
            if w.len() > 0 {
                Some(w)
            } else {
                None
            }
        },
        None => None,
    }
}

/// The command of a session whose `Exec` value was captured as `capture`.
pub fn session_command(capture: &Option<String>) -> (command: Option<Vec<String>>)
    ensures
        command.deep_view() == command_of(capture.deep_view()),
{
    match capture {
        Some(line) => {
            if line.as_str().unicode_len() == 0 {
                None
            } else {
                accept_words(split_words(line.as_str()))
            }
        },
        None => None,
    }
}

} // verus!
