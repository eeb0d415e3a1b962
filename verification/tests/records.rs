use igc_records::records::{marks_turnpoint, Record};
use igc_records::util::{Compass, ParseError};

#[test]
fn parse_record_line() {
    // The tag 'A' belongs to a record kind this crate does not decode, so the
    // line is tolerated as unrecognised rather than rejected.
    let rec = Record::parse_line("ACIdStrFoo").unwrap();
    println!("rec = {:?}", rec);
    assert!(matches!(rec, Record::Unrecognised));
}

#[test]
fn unknown_leading_byte_is_unrecognised_not_a_failure() {
    let rec = Record::parse_line("ZUNKNOWN").unwrap();
    assert!(matches!(rec, Record::Unrecognised));
}

#[test]
fn empty_line_is_too_short() {
    assert_eq!(Record::parse_line(""), Err(ParseError::LineTooShort));
}

#[test]
fn c_line_routes_by_ninth_character() {
    // A digit at index 8: a declaration.
    let rec = Record::parse_line("C230718092044000000000204Foo task").unwrap();
    match rec {
        Record::CDeclaration(d) => {
            assert_eq!(d.task_id, 2);
            assert_eq!(d.turnpoint_count, 4);
            assert_eq!(d.task_name, Some("Foo task"));
            assert_eq!(d.date.year, 2018);
        },
        other => panic!("expected a declaration, got {:?}", other),
    }
    // 'N' at index 8: a turnpoint.
    let rec = Record::parse_line("C5156040N00038120WLBZ-Leighton Buzzard NE").unwrap();
    match rec {
        Record::CTurnpoint(t) => {
            assert_eq!(t.position.lat.degrees, 51);
            assert_eq!(t.position.lat.minute_thousandths, 56040);
            assert_eq!(t.position.lat.sign, Compass::North);
            assert_eq!(t.position.lon.degrees, 0);
            assert_eq!(t.position.lon.minute_thousandths, 38120);
            assert_eq!(t.position.lon.sign, Compass::West);
            assert_eq!(t.turnpoint_name, Some("LBZ-Leighton Buzzard NE"));
        },
        other => panic!("expected a turnpoint, got {:?}", other),
    }
    // 'S' at index 8: also a turnpoint.
    let rec = Record::parse_line("C5156040S00038120E").unwrap();
    match rec {
        Record::CTurnpoint(t) => {
            assert_eq!(t.position.lat.sign, Compass::South);
            assert_eq!(t.position.lon.sign, Compass::East);
            assert_eq!(t.turnpoint_name, None);
        },
        other => panic!("expected a turnpoint, got {:?}", other),
    }
}

#[test]
fn c_line_without_ninth_character_is_too_short() {
    assert_eq!(Record::parse_line("C2307180"), Err(ParseError::LineTooShort));
}

#[test]
fn short_c_lines_fail_with_their_kind_minimum() {
    // Routed to the declaration decoder, one character short of 25.
    assert_eq!(
        Record::parse_line("C23071809204400000000020"),
        Err(ParseError::LineTooShort)
    );
    // Routed to the turnpoint decoder, one character short of 18.
    assert_eq!(Record::parse_line("C5156040N00038120"), Err(ParseError::LineTooShort));
}

#[test]
fn turnpoint_marker_predicate() {
    assert!(marks_turnpoint('N'));
    assert!(marks_turnpoint('S'));
    assert!(!marks_turnpoint('0'));
    assert!(!marks_turnpoint('E'));
    assert!(!marks_turnpoint('Z'));
}

#[test]
fn declaration_without_name_via_dispatcher() {
    let rec = Record::parse_line("C230718092044000000000204").unwrap();
    match rec {
        Record::CDeclaration(d) => assert_eq!(d.task_name, None),
        other => panic!("expected a declaration, got {:?}", other),
    }
}
