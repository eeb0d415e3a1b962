//! Calendar date and wall-clock time primitives, in the six-digit
//! micro-format the log lines carry them in.

use vstd::prelude::*;

use crate::util::digits::{
    all_digits, digits_val, lemma_all_digits_join, lemma_digits_fit, parse_digits,
};
use crate::util::parse_error::ParseError;

verus! {

/// A calendar date, as carried by a record.  Purely syntactic: the digits are
/// taken as given, so day `0` or month `0` is representable.
#[derive(Clone, Copy, Debug, PartialEq, Eq, Structural)]
pub struct Date {
    pub day: u8,
    pub month: u8,
    pub year: u16,
}

/// A wall-clock time of day.
#[derive(Clone, Copy, Debug, PartialEq, Eq, Structural)]
pub struct Time {
    pub hours: u8,
    pub minutes: u8,
    pub seconds: u8,
}

/// A six-character text is a well-formed date field: `DDMMYY`, all digits.
/// Digit ranges are deliberately not constrained.
pub open spec fn date_ok(s: Seq<char>) -> bool {
    s.len() == 6 && all_digits(s)
}

/// The date a well-formed `DDMMYY` field denotes.  The two-digit year counts
/// from 2000.
pub open spec fn date_of(s: Seq<char>) -> Date {
    Date {
        day: digits_val(s.subrange(0, 2)) as u8,
        month: digits_val(s.subrange(2, 4)) as u8,
        year: (2000 + digits_val(s.subrange(4, 6))) as u16,
    }
}

/// A six-character text is a well-formed time field: `HHMMSS`, all digits,
/// each component within its clock range.
pub open spec fn time_ok(s: Seq<char>) -> bool {
    s.len() == 6 && all_digits(s) && digits_val(s.subrange(0, 2)) <= 23 && digits_val(
        s.subrange(2, 4),
    ) <= 59 && digits_val(s.subrange(4, 6)) <= 59
}

/// The time a well-formed `HHMMSS` field denotes.
pub open spec fn time_of(s: Seq<char>) -> Time {
    Time {
        hours: digits_val(s.subrange(0, 2)) as u8,
        minutes: digits_val(s.subrange(2, 4)) as u8,
        seconds: digits_val(s.subrange(4, 6)) as u8,
    }
}

impl Date {
    /// Decode a `DDMMYY` date field.  Succeeds exactly on six digits, and
    /// then returns the denoted date.
    pub fn parse(s: &str) -> (r: Result<Date, ParseError>)
        ensures
            r is Ok <==> date_ok(s@),
            r is Ok ==> r->Ok_0 == date_of(s@),
            r is Err ==> r->Err_0 == ParseError::MalformedPrimitive,
    {
        if s.unicode_len() != 6 {
            return Err(ParseError::MalformedPrimitive);
        }
        let day = match parse_digits(s, 0, 2) {
            Ok(v) => v,
            Err(_) => {
                return Err(ParseError::MalformedPrimitive);
            },
        };
        let month = match parse_digits(s, 2, 4) {
            Ok(v) => v,
            Err(_) => {
                return Err(ParseError::MalformedPrimitive);
            },
        };
        let year = match parse_digits(s, 4, 6) {
            Ok(v) => v,
            Err(_) => {
                return Err(ParseError::MalformedPrimitive);
            },
        };
        proof {
            lemma_split_six(s@);
            lemma_digits_fit(s@.subrange(0, 2));
            lemma_digits_fit(s@.subrange(2, 4));
            lemma_digits_fit(s@.subrange(4, 6));
        }
        Ok(Date { day: day as u8, month: month as u8, year: 2000 + (year as u16) })
    }
}

impl Time {
    /// Decode an `HHMMSS` time field.  Succeeds exactly on six digits whose
    /// components are a valid clock reading, and then returns it.
    pub fn parse(s: &str) -> (r: Result<Time, ParseError>)
        ensures
            r is Ok <==> time_ok(s@),
            r is Ok ==> r->Ok_0 == time_of(s@),
            r is Err ==> r->Err_0 == ParseError::MalformedPrimitive,
    {
        if s.unicode_len() != 6 {
            return Err(ParseError::MalformedPrimitive);
        }
        let hours = match parse_digits(s, 0, 2) {
            Ok(v) => v,
            Err(_) => {
                return Err(ParseError::MalformedPrimitive);
            },
        };
        let minutes = match parse_digits(s, 2, 4) {
            Ok(v) => v,
            Err(_) => {
                return Err(ParseError::MalformedPrimitive);
            },
        };
        let seconds = match parse_digits(s, 4, 6) {
            Ok(v) => v,
            Err(_) => {
                return Err(ParseError::MalformedPrimitive);
            },
        };
        proof {
            lemma_split_six(s@);
        }
        if hours > 23 || minutes > 59 || seconds > 59 {
            return Err(ParseError::MalformedPrimitive);
        }
        Ok(Time { hours: hours as u8, minutes: minutes as u8, seconds: seconds as u8 })
    }
}

/// A six-character text is all digits exactly when its three two-character
/// halves are.
proof fn lemma_split_six(s: Seq<char>)
    requires
        s.len() == 6,
    ensures
        all_digits(s) <==> all_digits(s.subrange(0, 2)) && all_digits(s.subrange(2, 4))
            && all_digits(s.subrange(4, 6)),
{
    assert(s.subrange(0, 6) =~= s);
    lemma_all_digits_join(s, 0, 2, 6);
    lemma_all_digits_join(s, 2, 4, 6);
}

} // verus!
