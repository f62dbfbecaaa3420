use vstd::prelude::*;
use vstd::slice::slice_subrange;
use vstd::string::StringSliceAdditionalSpecFns;
use crate::calendar::{date_of, CalendarDate};
use crate::clock::{time_of, TimeOfDay};
use crate::coordinate::{altitude_in, altitude_of, coordinate_in, coordinate_of, lemma_altitude_fits,
    lemma_coordinate_fits};
use crate::decimal::{all_digits, is_digit, power_of_ten};
use crate::error::DecodeError;
use crate::text::{all_ascii, ascii_field};

verus! {

/// What a header line says.
#[derive(Debug, Clone, Copy, PartialEq, Eq)]
pub enum HeaderType {
    /// The day of the flight.
    Date(CalendarDate),
    /// Any other header. Nothing of it is kept.
    Other,
}

/// A position: latitude and longitude in thousandths of an arc-minute. A
/// negative number is south of the equator, or east of Greenwich.
#[derive(Debug, Clone, Copy, PartialEq, Eq)]
pub struct LatLng {
    pub lat: i32,
    pub lng: i32,
}

/// One recorded sample: where the aircraft was, how high, and at what time of
/// the day. Altitudes are metres.
#[derive(Debug, Clone, Copy, PartialEq, Eq)]
pub struct FixRecord {
    pub timestamp: TimeOfDay,
    pub pos: LatLng,
    pub alt_baro: i32,
    pub alt_gps: i32,
}

/// What a line of the log is.
#[derive(Debug, Clone, Copy, PartialEq, Eq)]
pub enum RecordType {
    Header(HeaderType),
    FixRecord(FixRecord),
    /// A line of any other kind. Nothing of it is kept.
    Other,
}

impl FixRecord {
    /// What the columns of a fix line can hold: a time of day, a latitude of
    /// two digits of degrees, a longitude of three, and altitudes of five
    /// characters.
    pub open spec fn wf(self) -> bool {
        &&& self.timestamp.wf()
        &&& -6_040_000 < self.pos.lat < 6_040_000
        &&& -60_040_000 < self.pos.lng < 60_040_000
        &&& -10_000 < self.alt_baro < 100_000
        &&& -10_000 < self.alt_gps < 100_000
    }
}

/// Whether the subtype of a header line, its bytes 2 to 4, is `DTE`.
pub open spec fn is_date_header(line: Seq<u8>) -> bool {
    line[2] == 0x44 && line[3] == 0x54 && line[4] == 0x45
}

/// What a header line decodes to. Its first two bytes are not looked at. With
/// the subtype `DTE`, the six bytes after the subtype are the date; any other
/// subtype makes the header one of the others, whatever follows.
pub open spec fn header_of(line: Seq<u8>) -> Result<HeaderType, DecodeError> {
    if line.len() < 5 {
        Err(DecodeError::TooShort)
    } else if !is_date_header(line) {
        Ok(HeaderType::Other)
    } else if line.len() < 11 {
        Err(DecodeError::TooShort)
    } else {
        match date_of(line.subrange(5, 11)) {
            Ok(date) => Ok(HeaderType::Date(date)),
            Err(e) => Err(e),
        }
    }
}

/// What a fix line decodes to. Its columns are: byte 0 the record letter, 1 to
/// 6 the time, 7 to 14 the latitude, 15 to 23 the longitude, 24 the validity
/// flag, 25 to 29 the pressure altitude, 30 to 34 the GPS altitude. The record
/// letter, the validity flag and everything from byte 35 on are not looked at.
///
/// Where several fields are refused, the error is that of the first in this
/// order: latitude, longitude, pressure altitude, GPS altitude, time.
pub open spec fn fix_of(line: Seq<u8>) -> Result<FixRecord, DecodeError> {
    if line.len() < 35 {
        Err(DecodeError::TooShort)
    } else {
        match coordinate_of(2, line.subrange(7, 15)) {
            Err(e) => Err(e),
            Ok(lat) => match coordinate_of(3, line.subrange(15, 24)) {
                Err(e) => Err(e),
                Ok(lng) => match altitude_of(line.subrange(25, 30)) {
                    Err(e) => Err(e),
                    Ok(alt_baro) => match altitude_of(line.subrange(30, 35)) {
                        Err(e) => Err(e),
                        Ok(alt_gps) => match time_of(line.subrange(1, 7)) {
                            Err(e) => Err(e),
                            Ok(timestamp) => Ok(
                                FixRecord { timestamp, pos: LatLng { lat, lng }, alt_baro, alt_gps },
                            ),
                        },
                    },
                },
            },
        }
    }
}

/// What a line decodes to. The first byte decides: `H` makes it a header, `B`
/// a fix, and anything else, the empty line too, a line of another kind.
pub open spec fn line_of(line: Seq<u8>) -> Result<RecordType, DecodeError> {
    if line.len() > 0 && line[0] == 0x48 {
        match header_of(line) {
            Ok(header) => Ok(RecordType::Header(header)),
            Err(e) => Err(e),
        }
    } else if line.len() > 0 && line[0] == 0x42 {
        match fix_of(line) {
            Ok(fix) => Ok(RecordType::FixRecord(fix)),
            Err(e) => Err(e),
        }
    } else {
        Ok(RecordType::Other)
    }
}

/// A field with a byte that is not ASCII is no run of digits.
proof fn lemma_digits_are_ascii(line: Seq<u8>, from: int, to: int)
    requires
        0 <= from <= to <= line.len(),
        !all_ascii(line, from, to),
    ensures
        !all_digits(line.subrange(from, to), 0, to - from),
{
    if all_digits(line.subrange(from, to), 0, to - from) {
        assert forall|i: int| from <= i < to implies #[trigger] line[i] < 0x80 by {
            assert(is_digit(line.subrange(from, to)[i - from]));
        }
    }
}

/// Decodes a header line.
pub fn parse_header(line: &str) -> (r: Result<HeaderType, DecodeError>)
    ensures
        r == header_of(line.spec_bytes()),
        r matches Ok(HeaderType::Date(date)) ==> date.wf(),
{
    let bytes = line.as_bytes();
    if bytes.len() < 5 {
        return Err(DecodeError::TooShort);
    }
    if bytes[2] != 0x44 || bytes[3] != 0x54 || bytes[4] != 0x45 {
        return Ok(HeaderType::Other);
    }
    if bytes.len() < 11 {
        return Err(DecodeError::TooShort);
    }
    match ascii_field(line, 5, 11) {
        None => {
            proof {
                lemma_digits_are_ascii(line.spec_bytes(), 5, 11);
            }
            Err(DecodeError::NotNumeric)
        },
        Some(field) => match CalendarDate::parse(field) {
            Ok(date) => Ok(HeaderType::Date(date)),
            Err(e) => Err(e),
        },
    }
}

/// A fix line is never refused as out of range, and what it decodes to is
/// within what its columns can hold.
pub proof fn lemma_fix_fits(line: Seq<u8>)
    ensures
        fix_of(line) != Err::<FixRecord, DecodeError>(DecodeError::OutOfRange),
        fix_of(line) matches Ok(fix) ==> fix.wf(),
{
    if line.len() >= 35 {
        lemma_coordinate_fits(2, line.subrange(7, 15));
        lemma_coordinate_fits(3, line.subrange(15, 24));
        lemma_altitude_fits(line.subrange(25, 30));
        lemma_altitude_fits(line.subrange(30, 35));
        reveal_with_fuel(power_of_ten, 6);
    }
}

/// Decodes a fix line.
pub fn parse_fix(line: &str) -> (r: Result<FixRecord, DecodeError>)
    ensures
        r == fix_of(line.spec_bytes()),
        r matches Ok(fix) ==> fix.wf(),
{
    proof {
        lemma_fix_fits(line.spec_bytes());
    }
    let bytes = line.as_bytes();
    if bytes.len() < 35 {
        return Err(DecodeError::TooShort);
    }
    let lat: i32 = match coordinate_in(2, slice_subrange(bytes, 7, 15)) {
        Ok(v) => v,
        Err(e) => {
            return Err(e);
        },
    };
    let lng: i32 = match coordinate_in(3, slice_subrange(bytes, 15, 24)) {
        Ok(v) => v,
        Err(e) => {
            return Err(e);
        },
    };
    let alt_baro: i32 = match altitude_in(slice_subrange(bytes, 25, 30)) {
        Ok(v) => v,
        Err(e) => {
            return Err(e);
        },
    };
    let alt_gps: i32 = match altitude_in(slice_subrange(bytes, 30, 35)) {
        Ok(v) => v,
        Err(e) => {
            return Err(e);
        },
    };
    let timestamp = match ascii_field(line, 1, 7) {
        None => {
            proof {
                lemma_digits_are_ascii(line.spec_bytes(), 1, 7);
            }
            return Err(DecodeError::NotNumeric);
        },
        Some(field) => match TimeOfDay::parse(field) {
            Ok(t) => t,
            Err(e) => {
                return Err(e);
            },
        },
    };
    Ok(FixRecord { timestamp, pos: LatLng { lat, lng }, alt_baro, alt_gps })
}

/// Decodes one line of the log.
pub fn parse_line(line: &str) -> (r: Result<RecordType, DecodeError>)
    ensures
        r == line_of(line.spec_bytes()),
        r matches Ok(RecordType::FixRecord(fix)) ==> fix.wf(),
        r matches Ok(RecordType::Header(HeaderType::Date(date))) ==> date.wf(),
{
    let bytes = line.as_bytes();
    if bytes.len() == 0 {
        return Ok(RecordType::Other);
    }
    let first: u8 = bytes[0];
    if first == 0x48 {
        match parse_header(line) {
            Ok(header) => Ok(RecordType::Header(header)),
            Err(e) => Err(e),
        }
    } else if first == 0x42 {
        match parse_fix(line) {
            Ok(fix) => Ok(RecordType::FixRecord(fix)),
            Err(e) => Err(e),
        }
    } else {
        Ok(RecordType::Other)
    }
}

} // verus!
