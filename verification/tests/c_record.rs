use igc_records::records::{CRecordDeclaration, CRecordTurnpoint};
use igc_records::util::{Compass, Date, ParseError, RawCoord, RawPosition, Time};

#[test]
fn c_record_declaration_parse() {
    let sample_string = "C230718092044000000000204Foo task";
    let parsed_declaration = CRecordDeclaration::parse(sample_string).unwrap();
    let mut expected = CRecordDeclaration {
        date: Date { day: 23, month: 07, year: 2018 },
        time: Time { hours: 09, minutes: 20, seconds: 44 },
        flight_date: Date { day: 00, month: 00, year: 2000 },
        task_id: 2,
        turnpoint_count: 4,
        task_name: Some("Foo task"),
    };
    assert_eq!(parsed_declaration, expected);

    let sample_string = "C230718092044000000000204";
    let parsed_declaration = CRecordDeclaration::parse(sample_string).unwrap();
    expected.task_name = None;
    assert_eq!(parsed_declaration, expected);
}

#[test]
fn c_record_turnpoint_parse() {
    let sample_string = "C5156040N00038120WLBZ-Leighton Buzzard NE";
    let parsed_turnpoint = CRecordTurnpoint::parse(sample_string).unwrap();
    let expected = CRecordTurnpoint {
        position: RawPosition {
            lat: RawCoord { degrees: 51, minute_thousandths: 56040, sign: Compass::North },
            lon: RawCoord { degrees: 0, minute_thousandths: 38120, sign: Compass::West },
        },
        turnpoint_name: Some("LBZ-Leighton Buzzard NE"),
    };

    assert_eq!(parsed_turnpoint, expected);
}

#[test]
fn declaration_one_char_name_is_present_and_empty_name_absent() {
    // One character past the fixed-width fields: the name is present.
    let parsed = CRecordDeclaration::parse("C230718092044000000000204X").unwrap();
    assert_eq!(parsed.task_name, Some("X"));
    // Exactly the minimum length: the name is absent.
    let parsed = CRecordDeclaration::parse("C230718092044000000000204").unwrap();
    assert_eq!(parsed.task_name, None);
}

#[test]
fn declaration_below_minimum_length_is_too_short() {
    // 24 characters: one below the declaration minimum.
    let r = CRecordDeclaration::parse("C23071809204400000000020");
    assert_eq!(r, Err(ParseError::LineTooShort));
}

#[test]
fn declaration_bad_task_id_is_malformed_numeric() {
    // Task id field [19,23) holds a letter.
    let r = CRecordDeclaration::parse("C2307180920440000000a0404");
    assert_eq!(r, Err(ParseError::MalformedNumericField));
}

#[test]
fn declaration_bad_date_is_malformed_primitive() {
    // Declaration date field [1,7) holds a letter.
    let r = CRecordDeclaration::parse("C23a718092044000000000204");
    assert_eq!(r, Err(ParseError::MalformedPrimitive));
}

#[test]
fn turnpoint_boundary_lengths() {
    // Exactly the minimum length: no name.
    let parsed = CRecordTurnpoint::parse("C5156040N00038120W").unwrap();
    assert_eq!(parsed.turnpoint_name, None);
    assert_eq!(parsed.position.lat.degrees, 51);
    // One character short of the minimum.
    let r = CRecordTurnpoint::parse("C5156040N00038120");
    assert_eq!(r, Err(ParseError::LineTooShort));
}

#[test]
fn turnpoint_bad_position_is_malformed_primitive() {
    // 'X' is no hemisphere letter.
    let r = CRecordTurnpoint::parse("C5156040X00038120W");
    assert_eq!(r, Err(ParseError::MalformedPrimitive));
}
