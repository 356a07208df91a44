//! Tests for decoding MDA (meteorological composite) sentences.

use nmea_parser::{Decimal, NmeaParser, ParseError, ParsedMessage};

/// The decimal's numeric value as a float, for comparing against the
/// readings the instruments transmit.
fn to_f64(d: &Decimal) -> f64 {
    let magnitude = d.mantissa as f64 / 10f64.powi(d.scale as i32);
    if d.negative {
        -magnitude
    } else {
        magnitude
    }
}

fn opt_f64(v: &Option<Decimal>) -> Option<f64> {
    match v {
        Some(d) => Some(to_f64(d)),
        None => None,
    }
}

fn dec(negative: bool, mantissa: u64, scale: usize) -> Option<Decimal> {
    Some(Decimal { negative, mantissa, scale })
}

#[test]
fn test_parse_mda() {
    match NmeaParser::new().parse_sentence("$WIMDA,30.0615,I,1.0180,B,23.6,C,,,25.3,,2.5,C,,,,,,,,*4E") {
        Ok(ps) => match ps {
            ParsedMessage::Mda(mwv) => {
                assert_eq!(opt_f64(&mwv.pressure_inches), Some(30.0615));
                assert_eq!(opt_f64(&mwv.pressure_bars), Some(1.0180));
                assert_eq!(opt_f64(&mwv.air_temperature), Some(23.6));
                assert_eq!(opt_f64(&mwv.dew_point), Some(2.5));
            }
        },
        Err(_) => {
            panic!("decoding a valid MDA sentence failed");
        }
    }
}

#[test]
fn mda_all_attributes_of_reference_sentence() {
    let r = NmeaParser::new()
        .parse_sentence("$WIMDA,30.0615,I,1.0180,B,23.6,C,,,25.3,,2.5,C,,,,,,,,*4E")
        .unwrap();
    let ParsedMessage::Mda(m) = r;
    assert_eq!(m.pressure_inches, dec(false, 300615, 4));
    assert_eq!(m.pressure_bars, dec(false, 10180, 4));
    assert_eq!(m.air_temperature, dec(false, 236, 1));
    assert_eq!(m.water_temperature, None);
    assert_eq!(m.relative_humidity, dec(false, 253, 1));
    assert_eq!(m.absolute_humidity, None);
    assert_eq!(m.dew_point, dec(false, 25, 1));
    assert_eq!(m.wind_angle_true, None);
    assert_eq!(m.wind_angle_magnetic, None);
    assert_eq!(m.wind_speed_knots, None);
    assert_eq!(m.wind_speed_ms, None);
}

#[test]
fn mda_truncated_to_ten_fields_is_a_field_count_error() {
    let r = NmeaParser::new().parse_sentence("$WIMDA,30.0615,I,1.0180,B,23.6,C,,,25.3");
    assert_eq!(r, Err(ParseError::FieldCountError { required: 20, actual: 10 }));
}

#[test]
fn mda_non_numeric_air_temperature_is_a_number_format_error() {
    let r = NmeaParser::new()
        .parse_sentence("$WIMDA,30.0615,I,1.0180,B,abc,C,,,25.3,,2.5,C,,,,,,,,*4E");
    assert_eq!(
        r,
        Err(ParseError::NumberFormatError { field_index: 5, raw_text: String::from("abc") })
    );
}

#[test]
fn mda_all_optional_fields_empty_decodes_to_all_absent() {
    let r = NmeaParser::new().parse_sentence("$WIMDA,,,,,,,,,,,,,,,,,,,,").unwrap();
    let ParsedMessage::Mda(m) = r;
    assert_eq!(m.pressure_inches, None);
    assert_eq!(m.pressure_bars, None);
    assert_eq!(m.air_temperature, None);
    assert_eq!(m.water_temperature, None);
    assert_eq!(m.relative_humidity, None);
    assert_eq!(m.absolute_humidity, None);
    assert_eq!(m.dew_point, None);
    assert_eq!(m.wind_angle_true, None);
    assert_eq!(m.wind_angle_magnetic, None);
    assert_eq!(m.wind_speed_knots, None);
    assert_eq!(m.wind_speed_ms, None);
}

#[test]
fn mda_exactly_twenty_fields_is_enough() {
    // 19 commas after the identifier: exactly 20 fields, none of them set.
    let r = NmeaParser::new().parse_sentence("$WIMDA,,,,,,,,,,,,,,,,,,,").unwrap();
    let ParsedMessage::Mda(m) = r;
    assert_eq!(m.wind_speed_ms, None);
}

#[test]
fn mda_signed_and_bare_numbers_parse_exactly() {
    let r = NmeaParser::new()
        .parse_sentence("$WIMDA,42,I,.5,B,-3.25,C,,,,,5.,C,,,,,,,,*00")
        .unwrap();
    let ParsedMessage::Mda(m) = r;
    assert_eq!(m.pressure_inches, dec(false, 42, 0));
    assert_eq!(m.pressure_bars, dec(false, 5, 1));
    assert_eq!(m.air_temperature, dec(true, 325, 2));
    assert_eq!(m.dew_point, dec(false, 5, 0));
    assert_eq!(opt_f64(&m.air_temperature), Some(-3.25));
}

#[test]
fn mda_without_checksum_and_dollar_decodes_the_same() {
    let parser = NmeaParser::new();
    let with_framing = parser
        .parse_sentence("$WIMDA,30.0615,I,1.0180,B,23.6,C,,,25.3,,2.5,C,,,,,,,,*4E");
    let without_framing = parser
        .parse_sentence("WIMDA,30.0615,I,1.0180,B,23.6,C,,,25.3,,2.5,C,,,,,,,,");
    assert_eq!(with_framing, without_framing);
    assert!(with_framing.is_ok());
}

#[test]
fn mda_decoding_twice_yields_identical_results() {
    let parser = NmeaParser::new();
    let line = "$WIMDA,30.0615,I,1.0180,B,23.6,C,,,25.3,,2.5,C,,,,,,,,*4E";
    let first = parser.parse_sentence(line);
    let second = parser.parse_sentence(line);
    assert_eq!(first, second);
    let bad = "$WIMDA,oops,I,,,,,,,,,,,,,,,,,,";
    assert_eq!(parser.parse_sentence(bad), parser.parse_sentence(bad));
}

#[test]
fn mda_second_bad_field_reports_the_first_offending_index() {
    let r = NmeaParser::new().parse_sentence("$WIMDA,bad,I,worse,B,,,,,,,,,,,,,,,,");
    assert_eq!(
        r,
        Err(ParseError::NumberFormatError { field_index: 1, raw_text: String::from("bad") })
    );
}

#[test]
fn mda_bare_type_identifier_without_talker_dispatches() {
    let r = NmeaParser::new().parse_sentence("$MDA,1.5,I,,,,,,,,,,,,,,,,,,");
    let ParsedMessage::Mda(m) = r.unwrap();
    assert_eq!(m.pressure_inches, dec(false, 15, 1));
}
