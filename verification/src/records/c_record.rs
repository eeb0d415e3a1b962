//! The two record shapes that share the task tag `C`: a task declaration and
//! a task turnpoint.  A conforming file carries one declaration followed by
//! the task's turnpoints, so both shapes begin with the same tag and are told
//! apart by the dispatcher.

use vstd::prelude::*;

use crate::util::coord::{position_of, position_ok, RawPosition};
use crate::util::datetime::{date_of, date_ok, time_of, time_ok, Date, Time};
use crate::util::digits::{all_digits, digits_val, lemma_digits_fit, parse_digits};
use crate::util::parse_error::ParseError;

verus! {

/// The task-declaration shape of a `C` record: when and for which flight the
/// task was declared, a numeric task identifier, how many turnpoints follow,
/// and an optional free-text task name.
#[derive(Debug, PartialEq, Eq)]
pub struct CRecordDeclaration<'a> {
    pub date: Date,
    pub time: Time,
    pub flight_date: Date,
    pub task_id: u16,
    pub turnpoint_count: u8,
    pub task_name: Option<&'a str>,
}

/// A declaration line is well formed: at least 25 characters, with a date at
/// [1,7), a time at [7,13), a date at [13,19) and digit runs at [19,23) and
/// [23,25).  Whatever follows character 25 is free text and never rejected.
pub open spec fn declaration_ok(s: Seq<char>) -> bool {
    &&& s.len() >= 25
    &&& date_ok(s.subrange(1, 7))
    &&& time_ok(s.subrange(7, 13))
    &&& date_ok(s.subrange(13, 19))
    &&& all_digits(s.subrange(19, 23))
    &&& all_digits(s.subrange(23, 25))
}

/// The failure a declaration line is rejected with: too-short lines first,
/// then the first bad field in line order.
pub open spec fn declaration_error(s: Seq<char>) -> ParseError {
    if s.len() < 25 {
        ParseError::LineTooShort
    } else if !date_ok(s.subrange(1, 7)) || !time_ok(s.subrange(7, 13)) || !date_ok(
        s.subrange(13, 19),
    ) {
        ParseError::MalformedPrimitive
    } else {
        ParseError::MalformedNumericField
    }
}

/// The record `d` is exactly what the well-formed declaration line `s`
/// denotes, the optional name present if and only if the line runs past its
/// fixed-width fields.
pub open spec fn declaration_matches(s: Seq<char>, d: CRecordDeclaration) -> bool {
    &&& d.date == date_of(s.subrange(1, 7))
    &&& d.time == time_of(s.subrange(7, 13))
    &&& d.flight_date == date_of(s.subrange(13, 19))
    &&& d.task_id == digits_val(s.subrange(19, 23))
    &&& d.turnpoint_count == digits_val(s.subrange(23, 25))
    &&& (s.len() == 25 ==> d.task_name is None)
    &&& (s.len() > 25 ==> (d.task_name matches Some(n) && n@ == s.subrange(25, s.len() as int)))
}

impl<'a> CRecordDeclaration<'a> {
    /// Decode a task declaration.  The dispatcher guarantees the tag;
    /// everything else about the line is checked here, and each failure is
    /// pinned to the inputs it arises on.
    pub fn parse(line: &'a str) -> (r: Result<CRecordDeclaration<'a>, ParseError>)
        requires
            line@.len() > 0,
            line@[0] == 'C',
        ensures
            r is Ok <==> declaration_ok(line@),
            r matches Ok(d) ==> declaration_matches(line@, d),
            r matches Err(e) ==> e == declaration_error(line@),
    {
        let len = line.unicode_len();
        if len < 25 {
            return Err(ParseError::LineTooShort);
        }
        let date = match Date::parse(line.substring_char(1, 7)) {
            Ok(d) => d,
            Err(e) => {
                return Err(e);
            },
        };
        let time = match Time::parse(line.substring_char(7, 13)) {
            Ok(t) => t,
            Err(e) => {
                return Err(e);
            },
        };
        let flight_date = match Date::parse(line.substring_char(13, 19)) {
            Ok(d) => d,
            Err(e) => {
                return Err(e);
            },
        };
        let task_id = match parse_digits(line, 19, 23) {
            Ok(v) => v,
            Err(e) => {
                return Err(e);
            },
        };
        let turnpoint_count = match parse_digits(line, 23, 25) {
            Ok(v) => v,
            Err(e) => {
                return Err(e);
            },
        };
        proof {
            lemma_digits_fit(line@.subrange(19, 23));
            lemma_digits_fit(line@.subrange(23, 25));
        }
        let task_name = if len > 25 {
            Some(line.substring_char(25, len))
        } else {
            None
        };
        Ok(
            CRecordDeclaration {
                date,
                time,
                flight_date,
                task_id: task_id as u16,
                turnpoint_count: turnpoint_count as u8,
                task_name,
            },
        )
    }
}

/// The turnpoint shape of a `C` record: a position and an optional free-text
/// point name.
#[derive(Debug, PartialEq, Eq)]
pub struct CRecordTurnpoint<'a> {
    pub position: RawPosition,
    pub turnpoint_name: Option<&'a str>,
}

/// A turnpoint line is well formed: at least 18 characters with a position at
/// [1,18).  Whatever follows character 18 is free text and never rejected.
pub open spec fn turnpoint_ok(s: Seq<char>) -> bool {
    s.len() >= 18 && position_ok(s.subrange(1, 18))
}

/// The failure a turnpoint line is rejected with.
pub open spec fn turnpoint_error(s: Seq<char>) -> ParseError {
    if s.len() < 18 {
        ParseError::LineTooShort
    } else {
        ParseError::MalformedPrimitive
    }
}

/// The record `t` is exactly what the well-formed turnpoint line `s` denotes.
pub open spec fn turnpoint_matches(s: Seq<char>, t: CRecordTurnpoint) -> bool {
    &&& t.position == position_of(s.subrange(1, 18))
    &&& (s.len() == 18 ==> t.turnpoint_name is None)
    &&& (s.len() > 18 ==> (t.turnpoint_name matches Some(n) && n@ == s.subrange(
        18,
        s.len() as int,
    )))
}

impl<'a> CRecordTurnpoint<'a> {
    /// Decode a task turnpoint.  The dispatcher guarantees the tag;
    /// everything else about the line is checked here.
    pub fn parse(line: &'a str) -> (r: Result<CRecordTurnpoint<'a>, ParseError>)
        requires
            line@.len() > 0,
            line@[0] == 'C',
        ensures
            r is Ok <==> turnpoint_ok(line@),
            r matches Ok(t) ==> turnpoint_matches(line@, t),
            r matches Err(e) ==> e == turnpoint_error(line@),
    {
        let len = line.unicode_len();
        if len < 18 {
            return Err(ParseError::LineTooShort);
        }
        let position = match RawPosition::parse_lat_lon(line.substring_char(1, 18)) {
            Ok(p) => p,
            Err(e) => {
                return Err(e);
            },
        };
        let turnpoint_name = if len > 18 {
            Some(line.substring_char(18, len))
        } else {
            None
        };
        Ok(CRecordTurnpoint { position, turnpoint_name })
    }
}

} // verus!
