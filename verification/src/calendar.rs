use vstd::prelude::*;
use vstd::string::StringSliceAdditionalSpecFns;
use chrono::Datelike;
use chrono::NaiveDate;
use crate::decimal::{all_digits, decimal_value, is_digit_run, lemma_decimal_below_power,
    lemma_decimal_grows, power_of_ten};
use crate::error::DecodeError;

verus! {

/// A day of the Gregorian calendar.
#[derive(Debug, Clone, Copy, PartialEq, Eq)]
pub struct CalendarDate {
    pub year: i32,
    pub month: u32,
    pub day: u32,
}

/// The year that a year of two digits stands for: 70 to 99 are 1970 to 1999,
/// 00 to 69 are 2000 to 2069.
pub open spec fn full_year(two_digits: int) -> int {
    if two_digits < 70 {
        2000 + two_digits
    } else {
        1900 + two_digits
    }
}

/// Whether `year` has a 29th of February.
pub open spec fn is_leap_year(year: int) -> bool {
    year % 4 == 0 && (year % 100 != 0 || year % 400 == 0)
}

/// The number of days of `month` in `year`, for a month from 1 to 12.
pub open spec fn days_in_month(year: int, month: int) -> int {
    if month == 2 {
        if is_leap_year(year) {
            29
        } else {
            28
        }
    } else if month == 4 || month == 6 || month == 9 || month == 11 {
        30
    } else {
        31
    }
}

/// Whether the calendar has the day `day` of `month` in `year`.
pub open spec fn is_calendar_date(year: int, month: int, day: int) -> bool {
    1 <= month <= 12 && 1 <= day <= days_in_month(year, month)
}

/// What a date field decodes to. The field is exactly six digits: two of the
/// day, two of the month, two of the year.
pub open spec fn date_of(field: Seq<u8>) -> Result<CalendarDate, DecodeError> {
    let day = decimal_value(field, 0, 2);
    let month = decimal_value(field, 2, 4);
    let year = full_year(decimal_value(field, 4, 6));
    if field.len() != 6 || !all_digits(field, 0, 6) {
        Err(DecodeError::NotNumeric)
    } else if !is_calendar_date(year, month, day) {
        Err(DecodeError::InvalidDate)
    } else {
        Ok(CalendarDate { year: year as i32, month: month as u32, day: day as u32 })
    }
}

/// Hands six digits to chrono's `NaiveDate::parse_from_str` with the format
/// `%d%m%y`, and takes the date apart by `year`, `month` and `day` of its
/// `Datelike`.
///
/// Not proved, but taken from chrono: on six digits each of the three items
/// reads two of them; a year of two digits below 70 is of the century of 2000,
/// any other of the century of 1900; the date is accepted when the Gregorian
/// calendar has that day, and comes back as it was written.
#[verifier::external_body]
fn chrono_ymd(field: &str, format: &str) -> (r: Result<
    (i32, u32, u32),
    chrono::format::ParseError,
>)
    requires
        format@ == "%d%m%y"@,
        field.spec_bytes().len() == 6,
        all_digits(field.spec_bytes(), 0, 6),
    ensures
        r is Ok <==> is_calendar_date(
            full_year(decimal_value(field.spec_bytes(), 4, 6)),
            decimal_value(field.spec_bytes(), 2, 4),
            decimal_value(field.spec_bytes(), 0, 2),
        ),
        r matches Ok(d) ==> {
            &&& d.0 == full_year(decimal_value(field.spec_bytes(), 4, 6))
            &&& d.1 == decimal_value(field.spec_bytes(), 2, 4)
            &&& d.2 == decimal_value(field.spec_bytes(), 0, 2)
        },
{
    match NaiveDate::parse_from_str(field, format) {
        Ok(date) => Ok((date.year(), date.month(), date.day())),
        Err(e) => Err(e),
    }
}

impl CalendarDate {
    /// Whether the calendar has this day.
    pub open spec fn wf(self) -> bool {
        is_calendar_date(self.year as int, self.month as int, self.day as int)
    }

    /// Decodes a date field of six digits, `DDMMYY`.
    pub fn parse(field: &str) -> (r: Result<CalendarDate, DecodeError>)
        ensures
            r == date_of(field.spec_bytes()),
            r matches Ok(d) ==> d.wf() && 1970 <= d.year <= 2069,
    {
        let bytes = field.as_bytes();
        if bytes.len() != 6 || !is_digit_run(bytes, 0, 6) {
            return Err(DecodeError::NotNumeric);
        }
        match chrono_ymd(field, "%d%m%y") {
            Ok((year, month, day)) => {
                proof {
                    lemma_decimal_grows(field.spec_bytes(), 4, 4, 6);
                    lemma_decimal_below_power(field.spec_bytes(), 4, 6);
                    reveal_with_fuel(power_of_ten, 3);
                }
                Ok(CalendarDate { year, month, day })
            },
            Err(_) => Err(DecodeError::InvalidDate),
        }
    }
}

} // verus!
