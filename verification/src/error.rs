use vstd::prelude::*;

verus! {

/// chrono's error for a text that it could not parse. Nothing is read from it.
#[verifier::external_type_specification]
#[verifier::external_body]
pub struct ExChronoParseError(chrono::format::ParseError);

/// Why a line, or a field of it, could not be decoded.
#[derive(Debug, Clone, Copy, PartialEq, Eq)]
pub enum DecodeError {
    /// The line or field ends before the last column of its layout.
    TooShort,
    /// A numeric field is not the run of ASCII digits that its layout calls for.
    NotNumeric,
    /// The digits of a field are a number too large for the field's type.
    OutOfRange,
    /// The six digits of a date field name no day of the calendar.
    InvalidDate,
    /// The six digits of a time field name no time of day.
    InvalidTime,
    /// A fix came before any date header, so its day is unknown.
    MissingDate,
}

} // verus!
