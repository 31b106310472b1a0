//! The cutoff store: the text of the cutoff file, read into a point in time
//! and written from one.

use vstd::prelude::*;
use crate::text::{trim, trimmed};
use crate::timestamp::Timestamp;

verus! {

/// The name of the file that holds the cutoff between runs.
pub const CUTOFF_FILE: &'static str = "cutoff_date.txt";

/// `chrono::ParseError`, carried from the parser to where it is mapped.
#[verifier::external_type_specification]
#[verifier::external_body]
pub struct ExParseError(chrono::ParseError);

/// Why the cutoff file could not be read into a point in time.
#[derive(Clone, Copy, Debug, PartialEq, Eq, Structural)]
pub enum CutoffError {
    /// The file holds something that is no timestamp.
    Format,
}

/// The point in time that `chrono` reads from a text as a UTC date and time,
/// if it reads one.
pub uninterp spec fn parsed_time(text: Seq<char>) -> Option<Timestamp>;

/// The text that `chrono` displays for a point in time as a UTC date and
/// time, if it can hold that point.
pub uninterp spec fn time_text(time: Timestamp) -> Option<Seq<char>>;

/// `str::parse::<chrono::DateTime<chrono::Utc>>`, with the date and time it
/// gives taken as seconds since the epoch (`DateTime::timestamp`) and
/// nanoseconds into the second (`DateTime::timestamp_subsec_nanos`): the
/// result is a function of the text alone.
#[verifier::external_body]
fn parse_utc(text: &str) -> (parsed: Result<Timestamp, chrono::ParseError>)
    ensures
        match parsed {
            Ok(time) => parsed_time(text@) == Some(time),
            Err(_) => parsed_time(text@) is None,
        },
{
    let time = text.parse::<chrono::DateTime<chrono::Utc>>()?;
    Ok(Timestamp { secs: time.timestamp(), nanos: time.timestamp_subsec_nanos() })
}

/// `ToString::to_string` of the `chrono::DateTime<chrono::Utc>` that
/// `DateTime::from_timestamp` makes of the seconds and nanoseconds, where it
/// makes one: the result is a function of the point in time alone.
#[verifier::external_body]
fn display_utc(time: Timestamp) -> (text: Option<String>)
    ensures
        match text {
            Some(shown) => time_text(time) == Some(shown@),
            None => time_text(time) is None,
        },
{
    match chrono::DateTime::from_timestamp(time.secs, time.nanos) {
        Some(shown) => Some(shown.to_string()),
        None => None,
    }
}

/// What the text of a cutoff file stands for: no cutoff where it holds
/// nothing but white space, else the point in time that the text between the
/// white space reads as, and a format error where it reads as none.
pub open spec fn cutoff_in(contents: Seq<char>) -> Result<Option<Timestamp>, CutoffError> {
    let text = trimmed(contents);
    if text.len() == 0 {
        Ok(None)
    } else {
        match parsed_time(text) {
            Some(time) => Ok(Some(time)),
            None => Err(CutoffError::Format),
        }
    }
}

/// The contents of the cutoff file for a point in time: its text on a line
/// of its own.
pub open spec fn cutoff_text(time: Timestamp) -> Option<Seq<char>> {
    match time_text(time) {
        Some(shown) => Some(shown.push('\n')),
        None => None,
    }
}

/// What the parser's answer to a text that is not empty means for the
/// cutoff: the point in time it read, or a format error.
pub fn cutoff_from_parse(parsed: Result<Timestamp, chrono::ParseError>) -> (cutoff: Result<
    Option<Timestamp>,
    CutoffError,
>)
    ensures
        match parsed {
            Ok(time) => cutoff == Ok::<Option<Timestamp>, CutoffError>(Some(time)),
            Err(_) => cutoff == Err::<Option<Timestamp>, CutoffError>(CutoffError::Format),
        },
{
    match parsed {
        Ok(time) => Ok(Some(time)),
        Err(_) => Err(CutoffError::Format),
    }
}

/// Reads the cutoff from what the cutoff file holds, `None` standing for a
/// file that does not exist.
pub fn read_cutoff_date(stored: Option<&str>) -> (cutoff: Result<Option<Timestamp>, CutoffError>)
    ensures
        cutoff == match stored {
            Some(contents) => cutoff_in(contents@),
            None => Ok(None),
        },
{
    match stored {
        None => Ok(None),
        Some(contents) => {
            let text = trim(contents);
            if text.is_empty() {
                Ok(None)
            } else {
                cutoff_from_parse(parse_utc(text))
            }
        },
    }
}

/// The cutoff that a run goes by after reading the store: a store that could
/// not be read counts as one that holds no cutoff.
pub fn cutoff_or_none(read: Result<Option<Timestamp>, CutoffError>) -> (cutoff: Option<Timestamp>)
    ensures
        cutoff == match read {
            Ok(stored) => stored,
            Err(_) => None,
        },
{
    match read {
        Ok(stored) => stored,
        Err(_) => None,
    }
}

/// Ends the displayed text of a point in time with a line break, as the
/// cutoff file holds it.
pub fn cutoff_line_from(shown: Option<String>) -> (line: Option<String>)
    ensures
        match shown {
            Some(text) => line matches Some(l) && l@ == text@.push('\n'),
            None => line is None,
        },
{
    match shown {
        Some(text) => {
            let mut line = text;
            proof {
                reveal_strlit("\n");
            }
            line.append("\n");
            Some(line)
        },
        None => None,
    }
}

/// Whether the contents read as the given cutoff.
pub open spec fn reads_as(contents: Seq<char>, time: Timestamp) -> bool {
    cutoff_in(contents) == Ok::<Option<Timestamp>, CutoffError>(Some(time))
}

/// The contents to write to the cutoff file for a point in time: its
/// displayed text on a line of its own. The line is handed out only where
/// it reads back as that point in time; `None` is the answer for a point
/// that cannot be displayed or does not read back.
pub fn cutoff_line(time: Timestamp) -> (line: Option<String>)
    ensures
        match line {
            Some(l) => cutoff_text(time) == Some(l@) && reads_as(l@, time),
            None => match cutoff_text(time) {
                Some(text) => !reads_as(text, time),
                None => true,
            },
        },
{
    match cutoff_line_from(display_utc(time)) {
        Some(line) => {
            let back = read_cutoff_date(Some(line.as_str()));
            match back {
                Ok(Some(read)) if read == time => Some(line),
                _ => None,
            }
        },
        None => None,
    }
}

} // verus!
