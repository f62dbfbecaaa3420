//! Decoder for IGC flight-recorder track logs.
//!
//! An IGC file is a line-oriented, fixed-column ASCII text. This library
//! classifies each line by its first byte, decodes the date header and the
//! position fixes, and threads the flight date through the sequence of lines
//! so that every fix becomes a dated track point.
//!
//! All layouts are stated over the bytes of a line: columns are byte offsets.
//! Reading the lines and writing the track are left to the caller.

pub mod error;
pub mod decimal;
pub mod text;
pub mod coordinate;
pub mod clock;
pub mod calendar;
pub mod record;
pub mod track;

pub use crate::calendar::CalendarDate;
pub use crate::clock::TimeOfDay;
pub use crate::coordinate::{parse_altitude, parse_coordinate};
pub use crate::error::DecodeError;
pub use crate::record::{parse_fix, parse_header, parse_line, FixRecord, HeaderType, LatLng, RecordType};
pub use crate::track::{advance, advance_line, Step, TrackPoint};
