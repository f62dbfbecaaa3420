use vstd::prelude::*;
use vstd::string::StringSliceAdditionalSpecFns;
use chrono::NaiveTime;
use chrono::Timelike;
use crate::decimal::{all_digits, decimal_value, is_digit_run};
use crate::error::DecodeError;

verus! {

/// A time of day as a fix writes it: hour, minute and second. Second 60 is the
/// leap second.
#[derive(Debug, Clone, Copy, PartialEq, Eq)]
pub struct TimeOfDay {
    pub hour: u32,
    pub minute: u32,
    pub second: u32,
}

/// Whether the three numbers name a time of day, the leap second included.
pub open spec fn is_time_of_day(hour: int, minute: int, second: int) -> bool {
    0 <= hour < 24 && 0 <= minute < 60 && 0 <= second <= 60
}

/// What a time field decodes to. The field is exactly six digits: two of the
/// hour, two of the minute, two of the second.
pub open spec fn time_of(field: Seq<u8>) -> Result<TimeOfDay, DecodeError> {
    let hour = decimal_value(field, 0, 2);
    let minute = decimal_value(field, 2, 4);
    let second = decimal_value(field, 4, 6);
    if field.len() != 6 || !all_digits(field, 0, 6) {
        Err(DecodeError::NotNumeric)
    } else if !is_time_of_day(hour, minute, second) {
        Err(DecodeError::InvalidTime)
    } else {
        Ok(TimeOfDay { hour: hour as u32, minute: minute as u32, second: second as u32 })
    }
}

/// Hands six digits to chrono's `NaiveTime::parse_from_str` with the format
/// `%H%M%S`, and takes the time apart by `hour`, `minute`, `second` and
/// `nanosecond` of its `Timelike`.
///
/// Not proved, but taken from chrono: on six digits each of the three items
/// reads two of them; the time is accepted when the hour is below 24, the
/// minute below 60 and the second at most 60; second 60 comes back as second
/// 59 with a full second of nanoseconds, any other second as itself with none.
#[verifier::external_body]
fn chrono_hms(field: &str, format: &str) -> (r: Result<
    (u32, u32, u32, u32),
    chrono::format::ParseError,
>)
    requires
        format@ == "%H%M%S"@,
        field.spec_bytes().len() == 6,
        all_digits(field.spec_bytes(), 0, 6),
    ensures
        r is Ok <==> is_time_of_day(
            decimal_value(field.spec_bytes(), 0, 2),
            decimal_value(field.spec_bytes(), 2, 4),
            decimal_value(field.spec_bytes(), 4, 6),
        ),
        r matches Ok(t) ==> {
            let second = decimal_value(field.spec_bytes(), 4, 6);
            &&& t.0 == decimal_value(field.spec_bytes(), 0, 2)
            &&& t.1 == decimal_value(field.spec_bytes(), 2, 4)
            &&& t.2 == if second == 60 { 59 } else { second }
            &&& t.3 == if second == 60 { 1_000_000_000 } else { 0int }
        },
{
    match NaiveTime::parse_from_str(field, format) {
        Ok(time) => Ok((time.hour(), time.minute(), time.second(), time.nanosecond())),
        Err(e) => Err(e),
    }
}

impl TimeOfDay {
    /// Whether the fields name a time of day.
    pub open spec fn wf(self) -> bool {
        is_time_of_day(self.hour as int, self.minute as int, self.second as int)
    }

    /// Decodes a time field of six digits, `HHMMSS`.
    pub fn parse(field: &str) -> (r: Result<TimeOfDay, DecodeError>)
        ensures
            r == time_of(field.spec_bytes()),
            r matches Ok(t) ==> t.wf(),
    {
        let bytes = field.as_bytes();
        if bytes.len() != 6 || !is_digit_run(bytes, 0, 6) {
            return Err(DecodeError::NotNumeric);
        }
        match chrono_hms(field, "%H%M%S") {
            Ok((hour, minute, second, nanos)) => {
                // chrono has no second 60: it keeps a leap second as second 59
                // with a full second of nanoseconds on top.
                let second: u32 = if nanos >= 1_000_000_000 {
                    second + 1
                } else {
                    second
                };
                Ok(TimeOfDay { hour, minute, second })
            },
            Err(_) => Err(DecodeError::InvalidTime),
        }
    }
}

} // verus!
