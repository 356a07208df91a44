//! MDA - Meteorological Composite.
//!
//! Field-index mapping of the MDA sentence (index 0 is the identifier
//! field): 1 pressure in inches of mercury, 3 pressure in bars, 5 air
//! temperature, 7 water temperature, 9 relative humidity, 10 absolute
//! humidity, 11 dew point, 13 wind angle true, 15 wind angle magnetic,
//! 17 wind speed in knots, 19 wind speed in m/s.  The even indices
//! between them carry fixed unit letters and are not read.  The sentence
//! requires at least 20 fields.

use vstd::prelude::*;

use crate::decimal::{spec_parse_decimal, Decimal};
use crate::errors::{res_view, ErrorModel, ParseError};
use crate::fields::{check_field_count, pick_number_field, spec_pick_number};
use crate::parser::ParsedMessage;
use crate::split::{spec_split, split_fields};

verus! {

/// MDA - Meteorological Composite.
///
/// Every attribute is independently optional: `None` records that the
/// field was empty or absent in the input, never that it was zero.
#[derive(Clone, Debug, PartialEq)]
pub struct MdaData {
    /// Barometric pressure, inches of mercury.
    pub pressure_inches: Option<Decimal>,
    /// Barometric pressure, bars.
    pub pressure_bars: Option<Decimal>,
    /// Air temperature, degrees C.
    pub air_temperature: Option<Decimal>,
    /// Water temperature, degrees C.
    pub water_temperature: Option<Decimal>,
    /// Relative humidity, percent.
    pub relative_humidity: Option<Decimal>,
    /// Absolute humidity, percent.
    pub absolute_humidity: Option<Decimal>,
    /// Dew point, degrees C.
    pub dew_point: Option<Decimal>,
    /// Wind angle, 0 to 359 degrees, degrees true.
    pub wind_angle_true: Option<Decimal>,
    /// Wind angle, 0 to 359 degrees, degrees magnetic.
    pub wind_angle_magnetic: Option<Decimal>,
    /// Wind speed, knots.
    pub wind_speed_knots: Option<Decimal>,
    /// Wind speed, m/s.
    pub wind_speed_ms: Option<Decimal>,
}

/// How many fields an MDA sentence must at least have.
pub open spec fn mda_required_fields() -> int {
    20
}

/// The field indices the MDA decoder reads.
pub open spec fn mda_field_index(i: int) -> bool {
    ||| i == 1
    ||| i == 3
    ||| i == 5
    ||| i == 7
    ||| i == 9
    ||| i == 10
    ||| i == 11
    ||| i == 13
    ||| i == 15
    ||| i == 17
    ||| i == 19
}

/// What decoding an MDA field sequence returns: the record whose
/// attributes are the optional numeric values at the mapped indices, or
/// the first failure in index order.
pub open spec fn spec_decode_mda(fields: Seq<Seq<char>>) -> Result<MdaData, ErrorModel> {
    if fields.len() < mda_required_fields() {
        Err(ErrorModel::FieldCount { required: 20, actual: fields.len() as int })
    } else {
        match spec_pick_number(fields, 1) {
            Err(e) => Err(e),
            Ok(pressure_inches) => match spec_pick_number(fields, 3) {
                Err(e) => Err(e),
                Ok(pressure_bars) => match spec_pick_number(fields, 5) {
                    Err(e) => Err(e),
                    Ok(air_temperature) => match spec_pick_number(fields, 7) {
                        Err(e) => Err(e),
                        Ok(water_temperature) => match spec_pick_number(fields, 9) {
                            Err(e) => Err(e),
                            Ok(relative_humidity) => match spec_pick_number(fields, 10) {
                                Err(e) => Err(e),
                                Ok(absolute_humidity) => match spec_pick_number(fields, 11) {
                                    Err(e) => Err(e),
                                    Ok(dew_point) => match spec_pick_number(fields, 13) {
                                        Err(e) => Err(e),
                                        Ok(wind_angle_true) => match spec_pick_number(fields, 15) {
                                            Err(e) => Err(e),
                                            Ok(wind_angle_magnetic) => match spec_pick_number(
                                                fields,
                                                17,
                                            ) {
                                                Err(e) => Err(e),
                                                Ok(wind_speed_knots) => match spec_pick_number(
                                                    fields,
                                                    19,
                                                ) {
                                                    Err(e) => Err(e),
                                                    Ok(wind_speed_ms) => Ok(
                                                        MdaData {
                                                            pressure_inches,
                                                            pressure_bars,
                                                            air_temperature,
                                                            water_temperature,
                                                            relative_humidity,
                                                            absolute_humidity,
                                                            dew_point,
                                                            wind_angle_true,
                                                            wind_angle_magnetic,
                                                            wind_speed_knots,
                                                            wind_speed_ms,
                                                        },
                                                    ),
                                                },
                                            },
                                        },
                                    },
                                },
                            },
                        },
                    },
                },
            },
        }
    }
}

/// What the MDA handler returns for a raw sentence: the decode of its
/// comma-split fields, wrapped in the result union.
pub open spec fn spec_handle(s: Seq<char>) -> Result<ParsedMessage, ErrorModel> {
    match spec_decode_mda(spec_split(s, ',')) {
        Ok(d) => Ok(ParsedMessage::Mda(d)),
        Err(e) => Err(e),
    }
}

/// The optional numeric value carried at `index`: nothing when the field
/// is absent or empty, else its parse.
pub open spec fn spec_opt_value(fields: Seq<Seq<char>>, index: int) -> Option<Decimal> {
    if index >= fields.len() || fields[index].len() == 0 {
        None
    } else {
        spec_parse_decimal(fields[index])
    }
}

/// A sentence that meets the minimum field count with every mapped field
/// empty decodes successfully, and every attribute of the record is
/// absent.
pub proof fn lemma_decode_mda_all_empty(fields: Seq<Seq<char>>)
    requires
        fields.len() >= mda_required_fields(),
        forall|i: int| mda_field_index(i) ==> fields[i].len() == 0,
    ensures
        spec_decode_mda(fields) == Ok::<MdaData, ErrorModel>(
            MdaData {
                pressure_inches: None,
                pressure_bars: None,
                air_temperature: None,
                water_temperature: None,
                relative_humidity: None,
                absolute_humidity: None,
                dew_point: None,
                wind_angle_true: None,
                wind_angle_magnetic: None,
                wind_speed_knots: None,
                wind_speed_ms: None,
            },
        ),
{
    assert(fields[1].len() == 0) by {
        assert(mda_field_index(1));
    }
    assert(fields[3].len() == 0) by {
        assert(mda_field_index(3));
    }
    assert(fields[5].len() == 0) by {
        assert(mda_field_index(5));
    }
    assert(fields[7].len() == 0) by {
        assert(mda_field_index(7));
    }
    assert(fields[9].len() == 0) by {
        assert(mda_field_index(9));
    }
    assert(fields[10].len() == 0) by {
        assert(mda_field_index(10));
    }
    assert(fields[11].len() == 0) by {
        assert(mda_field_index(11));
    }
    assert(fields[13].len() == 0) by {
        assert(mda_field_index(13));
    }
    assert(fields[15].len() == 0) by {
        assert(mda_field_index(15));
    }
    assert(fields[17].len() == 0) by {
        assert(mda_field_index(17));
    }
    assert(fields[19].len() == 0) by {
        assert(mda_field_index(19));
    }
}

/// On a successful decode every attribute equals the optional numeric
/// value at its mapped index: a non-empty, lexically valid field yields
/// exactly its parsed value, an empty or absent one yields absence.
pub proof fn lemma_decode_mda_values(fields: Seq<Seq<char>>, m: MdaData)
    requires
        spec_decode_mda(fields) == Ok::<MdaData, ErrorModel>(m),
    ensures
        m.pressure_inches == spec_opt_value(fields, 1),
        m.pressure_bars == spec_opt_value(fields, 3),
        m.air_temperature == spec_opt_value(fields, 5),
        m.water_temperature == spec_opt_value(fields, 7),
        m.relative_humidity == spec_opt_value(fields, 9),
        m.absolute_humidity == spec_opt_value(fields, 10),
        m.dew_point == spec_opt_value(fields, 11),
        m.wind_angle_true == spec_opt_value(fields, 13),
        m.wind_angle_magnetic == spec_opt_value(fields, 15),
        m.wind_speed_knots == spec_opt_value(fields, 17),
        m.wind_speed_ms == spec_opt_value(fields, 19),
{
}

/// A sentence with fewer fields than the MDA sentence requires fails with
/// `FieldCountError` carrying the required and the actual count.
pub proof fn lemma_decode_mda_short(fields: Seq<Seq<char>>)
    requires
        fields.len() < mda_required_fields(),
    ensures
        spec_decode_mda(fields) == Err::<MdaData, ErrorModel>(
            ErrorModel::FieldCount { required: 20, actual: fields.len() as int },
        ),
{
}

/// A non-empty but non-numeric field at a mapped index makes the decode
/// fail with `NumberFormatError` carrying exactly that index and the
/// field's text, provided no earlier mapped field already failed.
pub proof fn lemma_decode_mda_bad_number(fields: Seq<Seq<char>>, i: int)
    requires
        fields.len() >= mda_required_fields(),
        mda_field_index(i),
        fields[i].len() != 0,
        spec_parse_decimal(fields[i]) is None,
        forall|j: int| mda_field_index(j) && j < i ==> spec_pick_number(fields, j) is Ok,
    ensures
        spec_decode_mda(fields) == Err::<MdaData, ErrorModel>(
            ErrorModel::NumberFormat { field_index: i, raw_text: fields[i] },
        ),
{
    assert(mda_field_index(1));
    assert(mda_field_index(3));
    assert(mda_field_index(5));
    assert(mda_field_index(7));
    assert(mda_field_index(9));
    assert(mda_field_index(10));
    assert(mda_field_index(11));
    assert(mda_field_index(13));
    assert(mda_field_index(15));
    assert(mda_field_index(17));
    assert(mda_field_index(19));
    assert(spec_pick_number(fields, i) == Err::<Option<Decimal>, ErrorModel>(
        ErrorModel::NumberFormat { field_index: i, raw_text: fields[i] },
    ));
}

/// Decodes an MDA sentence: splits it on commas, checks the field count,
/// and reads every mapped attribute through the optional-numeric pick.
pub fn handle(sentence: &str) -> (r: Result<ParsedMessage, ParseError>)
    ensures
        res_view(r) == spec_handle(sentence@),
{
    let split: Vec<String> = split_fields(sentence, ',');
    match check_field_count(&split, 20) {
        Ok(_) => {},
        Err(e) => {
            return Err(e);
        },
    }
    let pressure_inches = match pick_number_field(&split, 1) {
        Ok(v) => v,
        Err(e) => {
            return Err(e);
        },
    };
    let pressure_bars = match pick_number_field(&split, 3) {
        Ok(v) => v,
        Err(e) => {
            return Err(e);
        },
    };
    let air_temperature = match pick_number_field(&split, 5) {
        Ok(v) => v,
        Err(e) => {
            return Err(e);
        },
    };
    let water_temperature = match pick_number_field(&split, 7) {
        Ok(v) => v,
        Err(e) => {
            return Err(e);
        },
    };
    let relative_humidity = match pick_number_field(&split, 9) {
        Ok(v) => v,
        Err(e) => {
            return Err(e);
        },
    };
    let absolute_humidity = match pick_number_field(&split, 10) {
        Ok(v) => v,
        Err(e) => {
            return Err(e);
        },
    };
    let dew_point = match pick_number_field(&split, 11) {
        Ok(v) => v,
        Err(e) => {
            return Err(e);
        },
    };
    let wind_angle_true = match pick_number_field(&split, 13) {
        Ok(v) => v,
        Err(e) => {
            return Err(e);
        },
    };
    let wind_angle_magnetic = match pick_number_field(&split, 15) {
        Ok(v) => v,
        Err(e) => {
            return Err(e);
        },
    };
    let wind_speed_knots = match pick_number_field(&split, 17) {
        Ok(v) => v,
        Err(e) => {
            return Err(e);
        },
    };
    let wind_speed_ms = match pick_number_field(&split, 19) {
        Ok(v) => v,
        Err(e) => {
            return Err(e);
        },
    };
    Ok(
        ParsedMessage::Mda(
            MdaData {
                pressure_inches,
                pressure_bars,
                air_temperature,
                water_temperature,
                relative_humidity,
                absolute_humidity,
                dew_point,
                wind_angle_true,
                wind_angle_magnetic,
                wind_speed_knots,
                wind_speed_ms,
            },
        ),
    )
}

} // verus!
