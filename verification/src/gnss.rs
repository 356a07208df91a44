//! Per-sentence decoders for GNSS / marine-instrument sentences.
//!
//! Each supported sentence type has one decoder module with its fixed
//! field-index mapping and required field count.  Every decoder consumes
//! the split field sequence through the typed field accessors and wraps
//! its record in the shared result union.

pub mod mda;
