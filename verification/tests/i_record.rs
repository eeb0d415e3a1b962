use igc_records::records::{Extension, ExtensionDefRecord, IRecord};
use igc_records::util::ParseError;

#[test]
fn irecord_format() {
    let expected_string = "I033638FXA3941ENL4246TAS";
    let record = IRecord(ExtensionDefRecord {
        num_extensions: 3,
        extensions: vec![
            Extension::new("FXA", 36, 38),
            Extension::new("ENL", 39, 41),
            Extension::new("TAS", 42, 46),
        ],
    });

    assert_eq!(record.encode(), expected_string);
}

#[test]
fn irecord_parse_and_round_trip() {
    let line = "I033638FXA3941ENL4246TAS";
    let record = IRecord::parse(line).unwrap();
    assert_eq!(record.0.num_extensions, 3);
    assert_eq!(
        record.0.extensions,
        vec![
            Extension::new("FXA", 36, 38),
            Extension::new("ENL", 39, 41),
            Extension::new("TAS", 42, 46),
        ]
    );
    // Re-encoding reproduces the input, character for character.
    assert_eq!(record.encode(), line);
}

#[test]
fn irecord_without_extensions_round_trips() {
    let record = IRecord::parse("I00").unwrap();
    assert_eq!(record.0.num_extensions, 0);
    assert_eq!(record.0.extensions, vec![]);
    assert_eq!(record.encode(), "I00");
}

#[test]
fn irecord_ignores_characters_past_the_declared_entries() {
    let record = IRecord::parse("I013638FXAtrailing junk").unwrap();
    assert_eq!(record.0.num_extensions, 1);
    assert_eq!(record.0.extensions, vec![Extension::new("FXA", 36, 38)]);
}

#[test]
fn irecord_bad_count_is_malformed_numeric() {
    let r = IRecord::parse("IxX3638FXA");
    assert_eq!(r, Err(ParseError::MalformedNumericField));
}

#[test]
fn irecord_missing_entries_are_too_short() {
    // The count field itself is cut off.
    assert_eq!(IRecord::parse("I0"), Err(ParseError::LineTooShort));
    // The count promises two entries but only one is present.
    assert_eq!(IRecord::parse("I023638FXA"), Err(ParseError::LineTooShort));
}

#[test]
fn irecord_bad_column_is_malformed_numeric() {
    let r = IRecord::parse("I033638FXA39x1ENL4246TAS");
    assert_eq!(r, Err(ParseError::MalformedNumericField));
}
