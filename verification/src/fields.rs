//! Typed field accessors over a split field sequence.
//!
//! Two operations cover every positional access a decoder makes: a field
//! count check, to be run once before any positional reads, and the
//! optional-numeric pick.  The pick keeps the engine's central
//! distinction: an empty (or padded-away) field is "no value", while a
//! non-empty field that is not a number is an error naming the field.

use vstd::prelude::*;

use crate::decimal::{parse_decimal, spec_parse_decimal, Decimal};
use crate::errors::{res_view, ErrorModel, ParseError};

verus! {

/// What the field count check returns: success exactly when at least
/// `required` fields are present, else the failure naming both counts.
pub open spec fn spec_check_field_count(fields: Seq<Seq<char>>, required: int) -> Result<
    (),
    ErrorModel,
> {
    if fields.len() >= required {
        Ok(())
    } else {
        Err(ErrorModel::FieldCount { required, actual: fields.len() as int })
    }
}

/// What the optional-numeric pick returns at `index`: no value for a
/// missing or empty field, the parsed decimal for a valid one, and the
/// failure naming the index and the field's text otherwise.
pub open spec fn spec_pick_number(fields: Seq<Seq<char>>, index: int) -> Result<
    Option<Decimal>,
    ErrorModel,
> {
    if index >= fields.len() {
        Ok(None)
    } else if fields[index].len() == 0 {
        Ok(None)
    } else {
        match spec_parse_decimal(fields[index]) {
            Some(d) => Ok(Some(d)),
            None => Err(
                ErrorModel::NumberFormat { field_index: index, raw_text: fields[index] },
            ),
        }
    }
}

/// Checks that the sentence is structurally long enough for its type:
/// succeeds when `fields` has at least `required` entries, else fails with
/// `FieldCountError` carrying the required and actual counts.
pub fn check_field_count(fields: &Vec<String>, required: usize) -> (r: Result<(), ParseError>)
    ensures
        res_view(r) == spec_check_field_count(fields.deep_view(), required as int),
{
    if fields.len() >= required {
        Ok(())
    } else {
        Err(ParseError::FieldCountError { required, actual: fields.len() })
    }
}

/// Picks the optional numeric value at `index`: `None` when the field is
/// absent or empty, the exact decimal when it parses, and
/// `NumberFormatError` carrying the index and the raw text when a
/// non-empty field is not a valid number.
pub fn pick_number_field(fields: &Vec<String>, index: usize) -> (r: Result<
    Option<Decimal>,
    ParseError,
>)
    ensures
        res_view(r) == spec_pick_number(fields.deep_view(), index as int),
{
    if index >= fields.len() {
        return Ok(None);
    }
    let field = &fields[index];
    if field.as_str().is_empty() {
        return Ok(None);
    }
    match parse_decimal(field.as_str()) {
        Some(d) => Ok(Some(d)),
        None => Err(
            ParseError::NumberFormatError { field_index: index, raw_text: field.clone() },
        ),
    }
}

} // verus!
