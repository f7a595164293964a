//! The requests of the protocol, and reading one from a line of text.

use crate::color::color;
use crate::color::parse_color;
use crate::pixel::Pixel;
use crate::text::coordinate;
use crate::text::parse_coordinate;
use crate::token::chars_of;
use crate::token::split_whitespace;
use crate::token::tokens;
use crate::token::words_view;
use vstd::prelude::*;

verus! {

/// A request of a client.
#[derive(Clone, Copy, Debug, PartialEq, Eq, Structural)]
pub enum Command {
    /// `HELP`
    Help,
    /// `SIZE`
    Size,
    /// `PX <x> <y>`: read one slot.
    GetPixel { x: usize, y: usize },
    /// `PX <x> <y> <color>`: write one slot.
    SetPixel { x: usize, y: usize, color: Pixel },
}

/// Why a line is no request.
#[derive(Clone, Copy, Debug, PartialEq, Eq, Structural)]
pub enum ParseError {
    /// The line is blank, or its first token is none of `HELP`, `SIZE`, `PX`.
    UnknownCommand,
    /// `PX` is not followed by two coordinates.
    MissingCoordinate,
    /// A coordinate is no decimal number that fits a `usize`.
    InvalidNumber,
    /// The colour is not six or eight hexadecimal digits.
    InvalidColor,
}

/// The request to read the slot of `(x, y)`.
pub open spec fn get_pixel(x: usize, y: usize) -> Command {
    Command::GetPixel { x, y }
}

/// The request to write `color` to the slot of `(x, y)`.
pub open spec fn set_pixel(x: usize, y: usize, color: Pixel) -> Command {
    Command::SetPixel { x, y, color }
}

/// The token `HELP`.
pub open spec fn help_word() -> Seq<char> {
    seq!['H', 'E', 'L', 'P']
}

/// The token `SIZE`.
pub open spec fn size_word() -> Seq<char> {
    seq!['S', 'I', 'Z', 'E']
}

/// The token `PX`.
pub open spec fn px_word() -> Seq<char> {
    seq!['P', 'X']
}

/// What follows `PX`, in `t[1]`, `t[2]` and `t[3]`. The first coordinate is
/// looked at before the second, and the colour last. Tokens after the
/// colour are ignored.
pub open spec fn parse_px(t: Seq<Seq<char>>) -> Result<Command, ParseError> {
    if t.len() < 2 {
        Err(ParseError::MissingCoordinate)
    } else if coordinate(t[1]) is None {
        Err(ParseError::InvalidNumber)
    } else if t.len() < 3 {
        Err(ParseError::MissingCoordinate)
    } else if coordinate(t[2]) is None {
        Err(ParseError::InvalidNumber)
    } else if t.len() < 4 {
        Ok(get_pixel(coordinate(t[1])->0, coordinate(t[2])->0))
    } else {
        match color(t[3]) {
            Some(c) => Ok(set_pixel(coordinate(t[1])->0, coordinate(t[2])->0, c)),
            None => Err(ParseError::InvalidColor),
        }
    }
}

/// The request that a sequence of tokens writes. The first token selects
/// the kind, in upper case only. Tokens after `HELP` and after `SIZE` are
/// ignored.
pub open spec fn parse_tokens(t: Seq<Seq<char>>) -> Result<Command, ParseError> {
    if t.len() == 0 {
        Err(ParseError::UnknownCommand)
    } else if t[0] == help_word() {
        Ok(Command::Help)
    } else if t[0] == size_word() {
        Ok(Command::Size)
    } else if t[0] == px_word() {
        parse_px(t)
    } else {
        Err(ParseError::UnknownCommand)
    }
}

/// The request that a line writes.
pub open spec fn parse_line(line: Seq<char>) -> Result<Command, ParseError> {
    parse_tokens(tokens(line))
}

/// Whether `word` is the text `expected`.
fn word_is(word: &Vec<char>, expected: &str) -> (yes: bool)
    ensures
        yes == (word@ == expected@),
{
    let want = chars_of(expected);
    if word.len() != want.len() {
        return false;
    }
    let mut i: usize = 0;
    while i < word.len()
        invariant
            i <= word.len(),
            word.len() == want.len(),
            want@ == expected@,
            forall|k: int| 0 <= k < i ==> word@[k] == want@[k],
        decreases word.len() - i,
    {
        if word[i] != want[i] {
            return false;
        }
        i = i + 1;
    }
    assert(word@ =~= want@);
    true
}

/// Reads what follows `PX`.
fn match_px(words: &Vec<Vec<char>>) -> (res: Result<Command, ParseError>)
    ensures
        res == parse_px(words_view(words@)),
{
    if words.len() < 2 {
        return Err(ParseError::MissingCoordinate);
    }
    let x = match parse_coordinate(&words[1]) {
        Some(x) => x,
        None => {
            return Err(ParseError::InvalidNumber);
        },
    };
    if words.len() < 3 {
        return Err(ParseError::MissingCoordinate);
    }
    let y = match parse_coordinate(&words[2]) {
        Some(y) => y,
        None => {
            return Err(ParseError::InvalidNumber);
        },
    };
    if words.len() < 4 {
        return Ok(Command::GetPixel { x, y });
    }
    match parse_color(&words[3]) {
        Some(color) => Ok(Command::SetPixel { x, y, color }),
        None => Err(ParseError::InvalidColor),
    }
}

/// Reads one request from the characters of a line.
pub fn match_line(line: &Vec<char>) -> (res: Result<Command, ParseError>)
    ensures
        res == parse_line(line@),
{
    let words = split_whitespace(line);
    if words.len() == 0 {
        return Err(ParseError::UnknownCommand);
    }
    proof {
        reveal_strlit("HELP");
        reveal_strlit("SIZE");
        reveal_strlit("PX");
        assert("HELP"@ =~= help_word());
        assert("SIZE"@ =~= size_word());
        assert("PX"@ =~= px_word());
    }
    if word_is(&words[0], "HELP") {
        Ok(Command::Help)
    } else if word_is(&words[0], "SIZE") {
        Ok(Command::Size)
    } else if word_is(&words[0], "PX") {
        match_px(&words)
    } else {
        Err(ParseError::UnknownCommand)
    }
}

/// Reads one request from a line. Whitespace before, between and after the
/// tokens does not count, so neither does the line break at the end.
pub fn match_cmd(s: &str) -> (res: Result<Command, ParseError>)
    ensures
        res == parse_line(s@),
{
    let line = chars_of(s);
    match_line(&line)
}

} // verus!
