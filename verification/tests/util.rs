use igc_records::util::{Compass, Date, ParseError, RawCoord, RawPosition, Time};

#[test]
fn date_parse_takes_digits_as_given() {
    assert_eq!(Date::parse("230718"), Ok(Date { day: 23, month: 7, year: 2018 }));
    // Day and month zero are syntactically fine: the parse is not a calendar check.
    assert_eq!(Date::parse("000000"), Ok(Date { day: 0, month: 0, year: 2000 }));
}

#[test]
fn date_parse_rejects_non_digits_and_wrong_width() {
    assert_eq!(Date::parse("23a718"), Err(ParseError::MalformedPrimitive));
    assert_eq!(Date::parse("23071"), Err(ParseError::MalformedPrimitive));
    assert_eq!(Date::parse("2307181"), Err(ParseError::MalformedPrimitive));
}

#[test]
fn time_parse_checks_clock_ranges() {
    assert_eq!(Time::parse("092044"), Ok(Time { hours: 9, minutes: 20, seconds: 44 }));
    assert_eq!(Time::parse("235959"), Ok(Time { hours: 23, minutes: 59, seconds: 59 }));
    assert_eq!(Time::parse("240000"), Err(ParseError::MalformedPrimitive));
    assert_eq!(Time::parse("006000"), Err(ParseError::MalformedPrimitive));
    assert_eq!(Time::parse("0920x4"), Err(ParseError::MalformedPrimitive));
}

#[test]
fn position_parse_reads_both_coordinates() {
    let pos = RawPosition::parse_lat_lon("5156040N00038120W").unwrap();
    assert_eq!(
        pos.lat,
        RawCoord { degrees: 51, minute_thousandths: 56040, sign: Compass::North }
    );
    assert_eq!(
        pos.lon,
        RawCoord { degrees: 0, minute_thousandths: 38120, sign: Compass::West }
    );
}

#[test]
fn position_parse_rejects_out_of_range_components() {
    // Latitude degrees above 90.
    assert_eq!(
        RawPosition::parse_lat_lon("9156040N00038120W"),
        Err(ParseError::MalformedPrimitive)
    );
    // Longitude degrees above 180.
    assert_eq!(
        RawPosition::parse_lat_lon("5156040N18138120W"),
        Err(ParseError::MalformedPrimitive)
    );
    // Minute-thousandths at one hour of arc.
    assert_eq!(
        RawPosition::parse_lat_lon("5160000N00038120W"),
        Err(ParseError::MalformedPrimitive)
    );
}

#[test]
fn position_parse_rejects_bad_hemisphere_letters() {
    assert_eq!(
        RawPosition::parse_lat_lon("5156040E00038120W"),
        Err(ParseError::MalformedPrimitive)
    );
    assert_eq!(
        RawPosition::parse_lat_lon("5156040N00038120N"),
        Err(ParseError::MalformedPrimitive)
    );
}

#[test]
fn coordinate_boundaries_parse() {
    assert_eq!(
        RawCoord::parse_lat("9000000S"),
        Ok(RawCoord { degrees: 90, minute_thousandths: 0, sign: Compass::South })
    );
    assert_eq!(
        RawCoord::parse_lon("18059999E"),
        Ok(RawCoord { degrees: 180, minute_thousandths: 59999, sign: Compass::East })
    );
}
