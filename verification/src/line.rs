//! Lines as they come off a source: the text of a line, and its split into
//! the instant it is stamped with and the message that follows.

use vstd::prelude::*;
use vstd::string::StringExecFns;
use crate::instant::Instant;
use crate::stamp::{instant_of, is_refusal, parse, ParseFailure};
use crate::text::{join_tokens, joined, split_tokens, tokens};

verus! {

/// The error of a failed read. It is handed on as it comes and never looked
/// into.
#[verifier::external_type_specification]
#[verifier::external_body]
pub struct ExIoError(std::io::Error);

/// What is said where no line could be worked on.
pub const NO_LINE: &'static str = "Error processing line";

/// What is said where there is nothing to read a timestamp from.
pub const EMPTY_LINE: &'static str = "Empty line";

/// Why a pulled line yields no text or no record.
#[derive(Clone, Debug, PartialEq, Eq)]
pub enum LineError {
    /// No line is there to work on.
    NoLine,
    /// Reading the line failed; the text is what the failed read says of
    /// itself.
    Unreadable(String),
    /// The line does not begin with a timestamp.
    Stamp(ParseFailure),
}

impl LineError {
    /// What the error says.
    pub open spec fn message_text(self) -> Seq<char> {
        match self {
            LineError::NoLine => NO_LINE@,
            LineError::Unreadable(cause) => NO_LINE@ + seq![':', ' '] + cause@,
            LineError::Stamp(ParseFailure::Absent) => EMPTY_LINE@,
            LineError::Stamp(ParseFailure::Malformed(account)) => account@,
        }
    }

    /// What the error says: for a failed read, what the read said of it; for
    /// a word that is no timestamp, what chrono said of it.
    pub fn message(&self) -> (text: String)
        ensures
            text@ == self.message_text(),
    {
        match self {
            LineError::NoLine => String::from_str(NO_LINE),
            LineError::Unreadable(cause) => {
                let mut text = String::from_str(NO_LINE);
                text.push(':');
                text.push(' ');
                text.append(cause.as_str());
                text
            },
            LineError::Stamp(ParseFailure::Absent) => String::from_str(EMPTY_LINE),
            LineError::Stamp(ParseFailure::Malformed(account)) => account.clone(),
        }
    }
}

/// The error for the first word of a line that is no timestamp.
pub open spec fn is_stamp_refusal(e: LineError) -> bool {
    e matches LineError::Stamp(ParseFailure::Malformed(account)) && is_refusal(account)
}

/// The text of a pulled line, if one was read.
pub open spec fn line_text(line: Option<Result<String, std::io::Error>>) -> Option<Seq<char>> {
    match line {
        Some(Ok(text)) => Some(text@),
        _ => None,
    }
}

/// The instant a line is stamped with: the reading of its first word.
pub open spec fn stamp_of(line: Seq<char>) -> Option<Instant> {
    if tokens(line).len() == 0 {
        None
    } else {
        instant_of(tokens(line)[0])
    }
}

/// The message of a line: its words after the first, single-spaced.
pub open spec fn message_of(line: Seq<char>) -> Seq<char> {
    if tokens(line).len() == 0 {
        Seq::empty()
    } else {
        joined(tokens(line).skip(1))
    }
}

/// The text of a pulled line.
///
/// Fails with `NoLine` where nothing was pulled and with `Unreadable`, which
/// holds the read error's own text, where the read failed.
pub fn get_line(line: &Option<Result<String, std::io::Error>>) -> (r: Result<String, LineError>)
    ensures
        match r {
            Ok(text) => line_text(*line) == Some(text@),
            Err(e) => match *line {
                None => e == LineError::NoLine,
                Some(Err(cause)) => e matches LineError::Unreadable(text)
                    && vstd::string::to_string_from_display_ensures::<std::io::Error>(
                    &cause,
                    text,
                ),
                Some(Ok(_)) => false,
            },
        },
{
    match line {
        Some(inner) => match inner {
            Ok(text) => Ok(text.clone()),
            Err(cause) => Err(LineError::Unreadable(cause.to_string())),
        },
        None => Err(LineError::NoLine),
    }
}

/// Splits a line's text into its instant and its message.
///
/// Fails with `Stamp(Absent)` on a line without a word and with
/// `Stamp(Malformed)`, which holds chrono's account, where the first word is
/// no timestamp.
pub fn split_line(text: &str) -> (r: Result<(Instant, String), LineError>)
    ensures
        match r {
            Ok((stamp, message)) => stamp_of(text@) == Some(stamp) && message@ == message_of(
                text@,
            ),
            Err(e) => stamp_of(text@) is None && if tokens(text@).len() == 0 {
                e == LineError::Stamp(ParseFailure::Absent)
            } else {
                is_stamp_refusal(e)
            },
        },
{
    let words = split_tokens(text);
    if words.len() == 0 {
        return Err(LineError::Stamp(ParseFailure::Absent));
    }
    match parse(words[0].as_str()) {
        Ok(stamp) => {
            let message = join_tokens(&words, 1);
            proof {
                if words.len() == 1 {
                    assert(tokens(text@).skip(1).len() == 0);
                }
            }
            Ok((stamp, message))
        },
        Err(e) => Err(LineError::Stamp(e)),
    }
}

/// Splits a pulled line into its instant and its message.
///
/// Where nothing was pulled there is no timestamp to read, and the failure
/// is `Stamp(Absent)`, as for a line without a word. Where the read failed,
/// the failure is `NoLine`: the cause is not handed on. On a line that was
/// read it fails as [`split_line`] does.
pub fn get_line_split(line: &Option<Result<String, std::io::Error>>) -> (r: Result<
    (Instant, String),
    LineError,
>)
    ensures
        match r {
            Ok((stamp, message)) => match line_text(*line) {
                Some(text) => stamp_of(text) == Some(stamp) && message@ == message_of(text),
                None => false,
            },
            Err(e) => match *line {
                None => e == LineError::Stamp(ParseFailure::Absent) && e.message_text()
                    == EMPTY_LINE@,
                Some(Err(_)) => e == LineError::NoLine && e.message_text() == NO_LINE@,
                Some(Ok(text)) => stamp_of(text@) is None && if tokens(text@).len() == 0 {
                    e == LineError::Stamp(ParseFailure::Absent)
                } else {
                    is_stamp_refusal(e)
                },
            },
        },
{
    match line {
        Some(inner) => match inner {
            Ok(text) => split_line(text.as_str()),
            Err(_) => Err(LineError::NoLine),
        },
        None => Err(LineError::Stamp(ParseFailure::Absent)),
    }
}

} // verus!
