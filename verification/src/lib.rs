//! Decoder for NMEA 0183 text sentences.
//!
//! A sentence is one comma-delimited ASCII line such as
//! `$WIMDA,30.0615,I,1.0180,B,...*4E`.  The crate splits such a line into
//! its positional fields, validates the field count, extracts optional
//! numeric fields (an empty field means "no value", a malformed one is an
//! error), and dispatches on the sentence-type identifier to the matching
//! per-sentence decoder.  Every decode is a pure function of the input
//! line; failures are classified error values, never panics.

pub mod decimal;
pub mod errors;
pub mod fields;
pub mod gnss;
pub mod parser;
pub mod scan;
pub mod split;

pub use decimal::Decimal;
pub use errors::{ErrorModel, ParseError};
pub use gnss::mda::MdaData;
pub use parser::{NmeaParser, ParsedMessage};
