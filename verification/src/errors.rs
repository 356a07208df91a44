//! Classified decode failures.
//!
//! Every failure is returned as a value the caller can branch on, never as
//! a panic.  `ParseError` is the executable error; `ErrorModel` is its
//! mathematical image, with string contents as character sequences, used
//! throughout the contracts.

use vstd::prelude::*;

verus! {

/// Why decoding a sentence could not complete.
#[derive(Clone, Debug, PartialEq)]
pub enum ParseError {
    /// The sentence has fewer fields than its type demands.
    FieldCountError {
        /// How many fields the sentence type requires.
        required: usize,
        /// How many fields the sentence actually has.
        actual: usize,
    },
    /// A non-empty field failed numeric parsing.
    NumberFormatError {
        /// The zero-based index of the offending field.
        field_index: usize,
        /// The offending field's text, as transmitted.
        raw_text: String,
    },
    /// No decoder is registered for the sentence's type identifier.
    UnsupportedSentenceType {
        /// The identifier that no decoder matched.
        identifier: String,
    },
}

/// The mathematical image of a `ParseError`: the same classification with
/// text as a character sequence, so contracts can speak of contents rather
/// than allocations.
pub enum ErrorModel {
    /// Image of `ParseError::FieldCountError`.
    FieldCount { required: int, actual: int },
    /// Image of `ParseError::NumberFormatError`.
    NumberFormat { field_index: int, raw_text: Seq<char> },
    /// Image of `ParseError::UnsupportedSentenceType`.
    Unsupported { identifier: Seq<char> },
}

impl View for ParseError {
    type V = ErrorModel;

    open spec fn view(&self) -> ErrorModel {
        match self {
            ParseError::FieldCountError { required, actual } => ErrorModel::FieldCount {
                required: *required as int,
                actual: *actual as int,
            },
            ParseError::NumberFormatError { field_index, raw_text } => ErrorModel::NumberFormat {
                field_index: *field_index as int,
                raw_text: raw_text@,
            },
            ParseError::UnsupportedSentenceType { identifier } => ErrorModel::Unsupported {
                identifier: identifier@,
            },
        }
    }
}

/// The mathematical image of a decode result: the success value unchanged,
/// the error replaced by its model.
pub open spec fn res_view<T>(r: Result<T, ParseError>) -> Result<T, ErrorModel> {
    match r {
        Ok(v) => Ok(v),
        Err(e) => Err(e@),
    }
}

} // verus!
