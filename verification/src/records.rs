//! The record kinds and the top-level dispatcher.

pub mod c_record;
pub mod extension;
pub mod i_record;

pub use c_record::{CRecordDeclaration, CRecordTurnpoint};
pub use extension::{Extension, ExtensionDefRecord};
pub use i_record::IRecord;

use vstd::prelude::*;

use crate::records::c_record::{
    declaration_error, declaration_matches, declaration_ok, turnpoint_error, turnpoint_matches,
    turnpoint_ok,
};
use crate::util::parse_error::ParseError;

verus! {

/// One decoded line: the record kind the line carries, or the marker for a
/// tag this crate does not know.  An unknown tag is a normal occurrence of
/// the format, not a failure.
#[derive(Debug, PartialEq, Eq)]
pub enum Record<'a> {
    CDeclaration(CRecordDeclaration<'a>),
    CTurnpoint(CRecordTurnpoint<'a>),
    Unrecognised,
}

/// The disambiguating signal between the two `C` shapes: in a turnpoint the
/// ninth character is the hemisphere letter of the latitude, in a declaration
/// it is a digit of the declaration time.
pub open spec fn is_turnpoint_marker(c: char) -> bool {
    c == 'N' || c == 'S'
}

/// The executable form of the disambiguation heuristic, kept as an isolated
/// predicate so it can be exercised apart from the decoders it chooses
/// between.
pub fn marks_turnpoint(c: char) -> (r: bool)
    ensures
        r == is_turnpoint_marker(c),
{
    c == 'N' || c == 'S'
}

impl<'a> Record<'a> {
    /// Decode one line by its leading tag.  An empty line is a length
    /// failure; a `C` line is routed by the ninth character to the turnpoint
    /// or the declaration decoder; any other tag is tolerated as
    /// `Unrecognised`.
    pub fn parse_line(line: &'a str) -> (r: Result<Record<'a>, ParseError>)
        ensures
            line@.len() == 0 ==> (r matches Err(e) && e == ParseError::LineTooShort),
            line@.len() > 0 && line@[0] != 'C' ==> (r matches Ok(rec) && rec is Unrecognised),
            line@.len() > 0 && line@[0] == 'C' && line@.len() < 9 ==> (r matches Err(e) && e
                == ParseError::LineTooShort),
            line@.len() >= 9 && line@[0] == 'C' && is_turnpoint_marker(line@[8]) ==> {
                &&& r is Ok <==> turnpoint_ok(line@)
                &&& (r matches Ok(rec) ==> (rec matches Record::CTurnpoint(t)
                    && turnpoint_matches(line@, t)))
                &&& (r matches Err(e) ==> e == turnpoint_error(line@))
            },
            line@.len() >= 9 && line@[0] == 'C' && !is_turnpoint_marker(line@[8]) ==> {
                &&& r is Ok <==> declaration_ok(line@)
                &&& (r matches Ok(rec) ==> (rec matches Record::CDeclaration(d)
                    && declaration_matches(line@, d)))
                &&& (r matches Err(e) ==> e == declaration_error(line@))
            },
    {
        let len = line.unicode_len();
        if len == 0 {
            return Err(ParseError::LineTooShort);
        }
        if line.get_char(0) != 'C' {
            return Ok(Record::Unrecognised);
        }
        if len < 9 {
            return Err(ParseError::LineTooShort);
        }
        if marks_turnpoint(line.get_char(8)) {
            match CRecordTurnpoint::parse(line) {
                Ok(t) => Ok(Record::CTurnpoint(t)),
                Err(e) => Err(e),
            }
        } else {
            match CRecordDeclaration::parse(line) {
                Ok(d) => Ok(Record::CDeclaration(d)),
                Err(e) => Err(e),
            }
        }
    }
}

} // verus!
