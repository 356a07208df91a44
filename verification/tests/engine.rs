//! Tests for the generic engine: field splitter, typed field accessors,
//! decimal parsing and dispatch.

use nmea_parser::decimal::parse_decimal;
use nmea_parser::fields::{check_field_count, pick_number_field};
use nmea_parser::split::split_fields;
use nmea_parser::{Decimal, NmeaParser, ParseError, ParsedMessage};

fn dec(negative: bool, mantissa: u64, scale: usize) -> Option<Decimal> {
    Some(Decimal { negative, mantissa, scale })
}

#[test]
fn splitter_keeps_empty_fields() {
    assert_eq!(split_fields("a,,b", ','), vec!["a", "", "b"]);
    assert_eq!(split_fields(",x,", ','), vec!["", "x", ""]);
}

#[test]
fn splitter_of_a_separator_free_string_is_the_string() {
    assert_eq!(split_fields("abc", ','), vec!["abc"]);
    assert_eq!(split_fields("", ','), vec![""]);
}

#[test]
fn decimal_parses_plain_and_signed_forms() {
    assert_eq!(parse_decimal("30.0615"), dec(false, 300615, 4));
    assert_eq!(parse_decimal("42"), dec(false, 42, 0));
    assert_eq!(parse_decimal("+7.5"), dec(false, 75, 1));
    assert_eq!(parse_decimal("-7.5"), dec(true, 75, 1));
    assert_eq!(parse_decimal(".5"), dec(false, 5, 1));
    assert_eq!(parse_decimal("5."), dec(false, 5, 0));
    assert_eq!(parse_decimal("-0"), dec(true, 0, 0));
    assert_eq!(parse_decimal("007"), dec(false, 7, 0));
}

#[test]
fn decimal_rejects_malformed_text() {
    assert_eq!(parse_decimal(""), None);
    assert_eq!(parse_decimal("abc"), None);
    assert_eq!(parse_decimal("."), None);
    assert_eq!(parse_decimal("+"), None);
    assert_eq!(parse_decimal("1.2.3"), None);
    assert_eq!(parse_decimal("1-2"), None);
    assert_eq!(parse_decimal("2.5 "), None);
    assert_eq!(parse_decimal("1e5"), None);
}

#[test]
fn decimal_largest_mantissa_fits_and_one_more_digit_does_not() {
    assert_eq!(
        parse_decimal("18446744073709551615"),
        dec(false, 18446744073709551615, 0)
    );
    assert_eq!(parse_decimal("18446744073709551616"), None);
    assert_eq!(parse_decimal("99999999999999999999"), None);
}

#[test]
fn field_count_check_names_both_counts() {
    let fields = split_fields("a,b", ',');
    assert_eq!(check_field_count(&fields, 2), Ok(()));
    assert_eq!(
        check_field_count(&fields, 3),
        Err(ParseError::FieldCountError { required: 3, actual: 2 })
    );
}

#[test]
fn pick_distinguishes_absent_from_invalid() {
    let fields = split_fields("x,,1.25,zzz", ',');
    assert_eq!(pick_number_field(&fields, 1), Ok(None));
    assert_eq!(pick_number_field(&fields, 2), Ok(dec(false, 125, 2)));
    assert_eq!(
        pick_number_field(&fields, 3),
        Err(ParseError::NumberFormatError { field_index: 3, raw_text: String::from("zzz") })
    );
    // an index past the end of the split is "absent", not an error
    assert_eq!(pick_number_field(&fields, 10), Ok(None));
}

#[test]
fn unsupported_identifier_is_named_in_the_error() {
    let r = NmeaParser::new().parse_sentence("$WIXYZ,1,2,3");
    assert_eq!(
        r,
        Err(ParseError::UnsupportedSentenceType { identifier: String::from("WIXYZ") })
    );
}

#[test]
fn unsupported_identifier_of_other_shapes() {
    let parser = NmeaParser::new();
    assert_eq!(
        parser.parse_sentence("$GPGGA,1,2,3"),
        Err(ParseError::UnsupportedSentenceType { identifier: String::from("GPGGA") })
    );
    // a six-character identifier is not cut down to a known type
    assert_eq!(
        parser.parse_sentence("$XWIMDA,1,2,3"),
        Err(ParseError::UnsupportedSentenceType { identifier: String::from("XWIMDA") })
    );
    assert_eq!(
        parser.parse_sentence(""),
        Err(ParseError::UnsupportedSentenceType { identifier: String::from("") })
    );
}

#[test]
fn dispatch_never_reaches_a_decoder_on_a_partial_match() {
    // "MD" and "MDAX" share a prefix with "MDA" but match no decoder
    let parser = NmeaParser::new();
    assert!(matches!(
        parser.parse_sentence("$WIMD,1,2,3"),
        Err(ParseError::UnsupportedSentenceType { .. })
    ));
    assert!(matches!(
        parser.parse_sentence("MDAX,1,2,3"),
        Err(ParseError::UnsupportedSentenceType { .. })
    ));
}

#[test]
fn checksum_suffix_is_cut_at_the_first_star() {
    let parser = NmeaParser::new();
    let r = parser.parse_sentence("$WIMDA,1.5,I,,,,,,,,,,,,,,,,,,*FF*00");
    let ParsedMessage::Mda(m) = r.unwrap();
    assert_eq!(m.pressure_inches, dec(false, 15, 1));
}
