//! Geographic coordinate primitives, in the fixed-width micro-format the log
//! lines carry them in: `DDMMmmmN` for a latitude and `DDDMMmmmE` for a
//! longitude, where `mmm` are thousandths of a minute and the final letter is
//! the hemisphere.

use vstd::prelude::*;

use crate::util::digits::{all_digits, digits_val, lemma_all_digits_join, parse_digits};
use crate::util::parse_error::ParseError;

verus! {

/// A hemisphere letter.
#[derive(Clone, Copy, Debug, PartialEq, Eq, Structural)]
pub enum Compass {
    North,
    South,
    East,
    West,
}

/// One coordinate, kept in the raw units of the format: whole degrees and
/// thousandths of a minute, with the hemisphere as the sign.
#[derive(Clone, Copy, Debug, PartialEq, Eq, Structural)]
pub struct RawCoord {
    pub degrees: u8,
    pub minute_thousandths: u16,
    pub sign: Compass,
}

/// A latitude and a longitude, as one position.
#[derive(Clone, Copy, Debug, PartialEq, Eq, Structural)]
pub struct RawPosition {
    pub lat: RawCoord,
    pub lon: RawCoord,
}

/// An eight-character text is a well-formed latitude: two digits of degrees
/// up to 90, five digits of minute-thousandths below one hour of arc, and a
/// north/south hemisphere letter.
pub open spec fn lat_ok(s: Seq<char>) -> bool {
    s.len() == 8 && all_digits(s.subrange(0, 7)) && (s[7] == 'N' || s[7] == 'S') && digits_val(
        s.subrange(0, 2),
    ) <= 90 && digits_val(s.subrange(2, 7)) <= 59999
}

/// The coordinate a well-formed latitude field denotes.
pub open spec fn lat_of(s: Seq<char>) -> RawCoord {
    RawCoord {
        degrees: digits_val(s.subrange(0, 2)) as u8,
        minute_thousandths: digits_val(s.subrange(2, 7)) as u16,
        sign: if s[7] == 'N' {
            Compass::North
        } else {
            Compass::South
        },
    }
}

/// A nine-character text is a well-formed longitude: three digits of degrees
/// up to 180, five digits of minute-thousandths below one hour of arc, and an
/// east/west hemisphere letter.
pub open spec fn lon_ok(s: Seq<char>) -> bool {
    s.len() == 9 && all_digits(s.subrange(0, 8)) && (s[8] == 'E' || s[8] == 'W') && digits_val(
        s.subrange(0, 3),
    ) <= 180 && digits_val(s.subrange(3, 8)) <= 59999
}

/// The coordinate a well-formed longitude field denotes.
pub open spec fn lon_of(s: Seq<char>) -> RawCoord {
    RawCoord {
        degrees: digits_val(s.subrange(0, 3)) as u8,
        minute_thousandths: digits_val(s.subrange(3, 8)) as u16,
        sign: if s[8] == 'E' {
            Compass::East
        } else {
            Compass::West
        },
    }
}

/// A seventeen-character text is a well-formed position: a latitude followed
/// by a longitude.
pub open spec fn position_ok(s: Seq<char>) -> bool {
    s.len() == 17 && lat_ok(s.subrange(0, 8)) && lon_ok(s.subrange(8, 17))
}

/// The position a well-formed position field denotes.
pub open spec fn position_of(s: Seq<char>) -> RawPosition {
    RawPosition { lat: lat_of(s.subrange(0, 8)), lon: lon_of(s.subrange(8, 17)) }
}

impl RawCoord {
    /// Decode a `DDMMmmmN` latitude field.  Succeeds exactly on a well-formed
    /// latitude, and then returns the denoted coordinate.
    pub fn parse_lat(s: &str) -> (r: Result<RawCoord, ParseError>)
        ensures
            r is Ok <==> lat_ok(s@),
            r is Ok ==> r->Ok_0 == lat_of(s@),
            r is Err ==> r->Err_0 == ParseError::MalformedPrimitive,
    {
        if s.unicode_len() != 8 {
            return Err(ParseError::MalformedPrimitive);
        }
        let degrees = match parse_digits(s, 0, 2) {
            Ok(v) => v,
            Err(_) => {
                proof {
                    lemma_all_digits_join(s@, 0, 2, 7);
                }
                return Err(ParseError::MalformedPrimitive);
            },
        };
        let thousandths = match parse_digits(s, 2, 7) {
            Ok(v) => v,
            Err(_) => {
                proof {
                    lemma_all_digits_join(s@, 0, 2, 7);
                }
                return Err(ParseError::MalformedPrimitive);
            },
        };
        proof {
            lemma_all_digits_join(s@, 0, 2, 7);
        }
        if degrees > 90 || thousandths > 59999 {
            return Err(ParseError::MalformedPrimitive);
        }
        let hemisphere = s.get_char(7);
        let sign = if hemisphere == 'N' {
            Compass::North
        } else if hemisphere == 'S' {
            Compass::South
        } else {
            return Err(ParseError::MalformedPrimitive);
        };
        Ok(RawCoord { degrees: degrees as u8, minute_thousandths: thousandths as u16, sign })
    }

    /// Decode a `DDDMMmmmE` longitude field.  Succeeds exactly on a
    /// well-formed longitude, and then returns the denoted coordinate.
    pub fn parse_lon(s: &str) -> (r: Result<RawCoord, ParseError>)
        ensures
            r is Ok <==> lon_ok(s@),
            r is Ok ==> r->Ok_0 == lon_of(s@),
            r is Err ==> r->Err_0 == ParseError::MalformedPrimitive,
    {
        if s.unicode_len() != 9 {
            return Err(ParseError::MalformedPrimitive);
        }
        let degrees = match parse_digits(s, 0, 3) {
            Ok(v) => v,
            Err(_) => {
                proof {
                    lemma_all_digits_join(s@, 0, 3, 8);
                }
                return Err(ParseError::MalformedPrimitive);
            },
        };
        let thousandths = match parse_digits(s, 3, 8) {
            Ok(v) => v,
            Err(_) => {
                proof {
                    lemma_all_digits_join(s@, 0, 3, 8);
                }
                return Err(ParseError::MalformedPrimitive);
            },
        };
        proof {
            lemma_all_digits_join(s@, 0, 3, 8);
        }
        if degrees > 180 || thousandths > 59999 {
            return Err(ParseError::MalformedPrimitive);
        }
        let hemisphere = s.get_char(8);
        let sign = if hemisphere == 'E' {
            Compass::East
        } else if hemisphere == 'W' {
            Compass::West
        } else {
            return Err(ParseError::MalformedPrimitive);
        };
        Ok(RawCoord { degrees: degrees as u8, minute_thousandths: thousandths as u16, sign })
    }
}

impl RawPosition {
    /// Decode a seventeen-character latitude/longitude pair.  Succeeds
    /// exactly on a well-formed position, and then returns it.
    pub fn parse_lat_lon(s: &str) -> (r: Result<RawPosition, ParseError>)
        ensures
            r is Ok <==> position_ok(s@),
            r is Ok ==> r->Ok_0 == position_of(s@),
            r is Err ==> r->Err_0 == ParseError::MalformedPrimitive,
    {
        if s.unicode_len() != 17 {
            return Err(ParseError::MalformedPrimitive);
        }
        let lat = match RawCoord::parse_lat(s.substring_char(0, 8)) {
            Ok(v) => v,
            Err(e) => {
                return Err(e);
            },
        };
        let lon = match RawCoord::parse_lon(s.substring_char(8, 17)) {
            Ok(v) => v,
            Err(e) => {
                return Err(e);
            },
        };
        Ok(RawPosition { lat, lon })
    }
}

} // verus!
